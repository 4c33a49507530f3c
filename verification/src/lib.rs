//! Typed model and line codec for Gopher (RFC 1436) directory-listing items.
//!
//! A directory listing is a sequence of lines of the form
//! `<type-char><display-text>\t<selector>\t<host>\t<port>\r\n`. This crate
//! models one such line as a [`GopherItem`] paired with its display text,
//! reads a line into that pair and writes the pair as a line. It performs
//! no I/O.

pub mod codec;
pub mod item;
pub mod laws;
pub mod port;
pub mod text;

pub use codec::{decode_line, encode_item, DecodeError, EncodeError};
pub use item::{GopherItem, ItemView, Message, Selector, TelnetData, TelnetView};
