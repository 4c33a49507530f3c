//! The closed set of item kinds and the payload each kind carries.

use vstd::prelude::*;

use crate::port::PORT_MAX;

verus! {

/// An item that represents a selector
///
/// Element is a selector string
#[derive(Copy, Clone, Debug, PartialEq, Eq)]
pub struct Selector<'a>(pub &'a str);

/// An item that represents a message
///
/// Element is the message shown to the client
#[derive(Copy, Clone, Debug, PartialEq, Eq)]
pub struct Message<'a>(pub &'a str);

/// Data for a telnet item
///
/// (host, port, login name)
///
/// The port is a `u16`: a port outside `0..=65535` cannot be held.
#[derive(Copy, Clone, Debug, PartialEq, Eq)]
pub struct TelnetData<'a>(pub &'a str, pub u16, pub &'a str);

/// Represents all supported Gopher protocol item types
/// Some types are omitted due to being irrelevant today.
///
/// See RFC-1436 for reference
#[derive(Copy, Clone, Debug, PartialEq, Eq)]
pub enum GopherItem<'a> {
    /// Read as plaintext by the client
    TextFile(Selector<'a>),
    /// Used to navigate the server
    Directory(Selector<'a>),
    /// Signals an error condition
    Error(Message<'a>),
    /// A uuencoded file
    UuFile(Selector<'a>),
    /// Link to a telnet server
    Telnet(TelnetData<'a>),
    /// A binary file
    Binary(Selector<'a>),
    /// An image in the GIF format
    Gif(Selector<'a>),
    /// Some kind of image file
    Image(Selector<'a>),
    /// Info line, not a link
    Info(Message<'a>),
}

/// What a [`TelnetData`] holds, as mathematical values.
///
/// The port of a view is any natural number; the view of a [`TelnetData`]
/// always has a port of at most [`PORT_MAX`].
pub struct TelnetView {
    pub host: Seq<char>,
    pub port: nat,
    pub login_name: Seq<char>,
}

/// What a [`GopherItem`] holds, as mathematical values: the same nine
/// variants, each with the characters of its payload.
pub enum ItemView {
    TextFile(Seq<char>),
    Directory(Seq<char>),
    Error(Seq<char>),
    UuFile(Seq<char>),
    Telnet(TelnetView),
    Binary(Seq<char>),
    Gif(Seq<char>),
    Image(Seq<char>),
    Info(Seq<char>),
}

/// The nine type characters of the wire format.
pub open spec fn is_wire_char(c: char) -> bool {
    c == '0' || c == '1' || c == '3' || c == '6' || c == '8' || c == '9' || c == 'g' || c == 'I'
        || c == 'i'
}

/// Type characters of the items that carry a [`Message`].
pub open spec fn carries_message(c: char) -> bool {
    c == '3' || c == 'i'
}

/// Type character of the item that carries a [`TelnetData`].
pub open spec fn carries_telnet(c: char) -> bool {
    c == '8'
}

/// Type characters of the items that carry a [`Selector`].
pub open spec fn carries_selector(c: char) -> bool {
    c == '0' || c == '1' || c == '6' || c == '9' || c == 'g' || c == 'I'
}

/// The selector-carrying item whose type character is `c`.
pub open spec fn selector_item(c: char, selector: Seq<char>) -> ItemView
    recommends
        carries_selector(c),
{
    if c == '0' {
        ItemView::TextFile(selector)
    } else if c == '1' {
        ItemView::Directory(selector)
    } else if c == '6' {
        ItemView::UuFile(selector)
    } else if c == '9' {
        ItemView::Binary(selector)
    } else if c == 'g' {
        ItemView::Gif(selector)
    } else {
        ItemView::Image(selector)
    }
}

/// The message-carrying item whose type character is `c`.
pub open spec fn message_item(c: char, text: Seq<char>) -> ItemView
    recommends
        carries_message(c),
{
    if c == '3' {
        ItemView::Error(text)
    } else {
        ItemView::Info(text)
    }
}

impl ItemView {
    /// The type character that RFC 1436 assigns to this variant.
    pub open spec fn wire_char(self) -> char {
        match self {
            ItemView::TextFile(_) => '0',
            ItemView::Directory(_) => '1',
            ItemView::Error(_) => '3',
            ItemView::UuFile(_) => '6',
            ItemView::Telnet(_) => '8',
            ItemView::Binary(_) => '9',
            ItemView::Gif(_) => 'g',
            ItemView::Image(_) => 'I',
            ItemView::Info(_) => 'i',
        }
    }
}

impl<'a> View for Selector<'a> {
    type V = Seq<char>;

    open spec fn view(&self) -> Seq<char> {
        self.0@
    }
}

impl<'a> View for Message<'a> {
    type V = Seq<char>;

    open spec fn view(&self) -> Seq<char> {
        self.0@
    }
}

impl<'a> View for TelnetData<'a> {
    type V = TelnetView;

    open spec fn view(&self) -> TelnetView {
        TelnetView { host: self.0@, port: self.1 as nat, login_name: self.2@ }
    }
}

impl<'a> View for GopherItem<'a> {
    type V = ItemView;

    open spec fn view(&self) -> ItemView {
        match *self {
            GopherItem::TextFile(s) => ItemView::TextFile(s@),
            GopherItem::Directory(s) => ItemView::Directory(s@),
            GopherItem::Error(m) => ItemView::Error(m@),
            GopherItem::UuFile(s) => ItemView::UuFile(s@),
            GopherItem::Telnet(t) => ItemView::Telnet(t@),
            GopherItem::Binary(s) => ItemView::Binary(s@),
            GopherItem::Gif(s) => ItemView::Gif(s@),
            GopherItem::Image(s) => ItemView::Image(s@),
            GopherItem::Info(m) => ItemView::Info(m@),
        }
    }
}

impl<'a> Selector<'a> {
    /// Gets the selector of this item
    pub fn selector(&self) -> (s: &'a str)
        ensures
            s@ == self@,
    {
        self.0
    }
}

impl<'a> Message<'a> {
    /// Gets the message of this item
    pub fn message(&self) -> (s: &'a str)
        ensures
            s@ == self@,
    {
        self.0
    }
}

impl<'a> TelnetData<'a> {
    /// Gets the hostname/ip of the telnet connection
    pub fn host(&self) -> (s: &'a str)
        ensures
            s@ == self@.host,
    {
        self.0
    }

    /// Gets the port of the telnet connection
    pub fn port(&self) -> (p: u16)
        ensures
            p == self@.port,
            p <= PORT_MAX,
    {
        self.1
    }

    /// Gets the login name to use for the connection
    pub fn login_name(&self) -> (s: &'a str)
        ensures
            s@ == self@.login_name,
    {
        self.2
    }
}

impl<'a> GopherItem<'a> {
    /// Returns the item prefix as assigned by RFC-1436 for this ItemType
    pub fn to_char(&self) -> (c: char)
        ensures
            c == self@.wire_char(),
            is_wire_char(c),
    {
        match self {
            Self::TextFile(_) => '0',
            Self::Directory(_) => '1',
            Self::Error(_) => '3',
            Self::UuFile(_) => '6',
            Self::Telnet(_) => '8',
            Self::Binary(_) => '9',
            Self::Gif(_) => 'g',
            Self::Image(_) => 'I',
            Self::Info(_) => 'i',
        }
    }
}

/// Whether `c` is one of the nine type characters.
pub fn is_type_char(c: char) -> (b: bool)
    ensures
        b == is_wire_char(c),
{
    c == '0' || c == '1' || c == '3' || c == '6' || c == '8' || c == '9' || c == 'g' || c == 'I'
        || c == 'i'
}

} // verus!
