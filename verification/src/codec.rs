//! Reading and writing one line of a directory listing: a [`GopherItem`]
//! with its display text on one side, the characters of the line on the
//! other.
//!
//! A line is `<type-char><display-text>\t<selector>\t<host>\t<port>\r\n`.
//! What the three fields after the display text hold depends on the item:
//!
//! | item                 | selector field | host field | port field |
//! |----------------------|----------------|------------|------------|
//! | carries a selector   | the selector   | empty      | empty      |
//! | carries a message    | empty          | empty      | empty      |
//! | telnet link          | the login name | the host   | the port   |
//!
//! This layer does not know which server a listing belongs to. An item that
//! carries a selector or a message therefore keeps no host and no port:
//! reading ignores what stands in these two fields, and writing leaves both
//! empty for whoever assembles the listing to fill in.

use vstd::prelude::*;

use crate::item::{
    carries_message, carries_selector, carries_telnet, is_type_char, is_wire_char, message_item,
    selector_item, GopherItem, ItemView, Message, Selector, TelnetData, TelnetView,
};
use crate::port::{
    decimal_text, decimal_value, is_port_text, parse_port, push_decimal, PORT_MAX,
};
use crate::text::{
    check_field_text, contains_line_break, has_line_break, is_field_text, join_fields,
    leading_fields, lemma_join_four, split_fields, strip_line_end,
};

verus! {

/// Why a line could not be read.
#[derive(Copy, Clone, Debug, PartialEq, Eq, Structural)]
pub enum DecodeError {
    /// The line has no characters at all.
    EmptyInput,
    /// The first character is not one of the nine type characters.
    UnknownItemType,
    /// A field that the item type needs is missing, or the record holds a
    /// carriage return or line feed before its terminator.
    MalformedRecord,
    /// The port field of a telnet item is not a decimal number in `0..=65535`.
    InvalidPort,
}

/// Why an item could not be written.
#[derive(Copy, Clone, Debug, PartialEq, Eq, Structural)]
pub enum EncodeError {
    /// The display text or a text of the payload holds a tab, a carriage
    /// return or a line feed. (The model also refuses a telnet port above
    /// 65535, which no [`TelnetData`] can hold.)
    InvalidField,
}

/// How many leading fields a record of type `c` must have: the display text
/// alone for a message, display text and selector for an item with a
/// selector, and all four fields for a telnet link.
pub open spec fn required_fields(c: char) -> nat {
    if carries_message(c) {
        1
    } else if carries_telnet(c) {
        4
    } else {
        2
    }
}

/// An item that can be written: its texts hold no tab and no line break, and
/// a telnet port is at most 65535. The view of a [`GopherItem`] always meets
/// the clause on the port; it stands here for the views that are no view of
/// any item.
pub open spec fn is_wire_safe(item: ItemView) -> bool {
    match item {
        ItemView::Telnet(t) => is_field_text(t.host) && is_field_text(t.login_name) && t.port
            <= PORT_MAX,
        ItemView::Error(m) | ItemView::Info(m) => is_field_text(m),
        ItemView::TextFile(s)
        | ItemView::Directory(s)
        | ItemView::UuFile(s)
        | ItemView::Binary(s)
        | ItemView::Gif(s)
        | ItemView::Image(s) => is_field_text(s),
    }
}

/// The selector, host and port fields on the line of `item`.
pub open spec fn payload_fields(item: ItemView) -> Seq<Seq<char>> {
    match item {
        ItemView::Telnet(t) => seq![t.login_name, t.host, decimal_text(t.port)],
        ItemView::Error(_) | ItemView::Info(_) => seq![Seq::empty(), Seq::empty(), Seq::empty()],
        ItemView::TextFile(s)
        | ItemView::Directory(s)
        | ItemView::UuFile(s)
        | ItemView::Binary(s)
        | ItemView::Gif(s)
        | ItemView::Image(s) => seq![s, Seq::empty(), Seq::empty()],
    }
}

/// The line that stands for `item` under the label `text`.
pub open spec fn encode_record(item: ItemView, text: Seq<char>) -> Result<Seq<char>, EncodeError> {
    if is_field_text(text) && is_wire_safe(item) {
        Ok(
            seq![item.wire_char()] + join_fields(seq![text] + payload_fields(item)) + seq![
                '\r',
                '\n',
            ],
        )
    } else {
        Err(EncodeError::InvalidField)
    }
}

/// The part of a non-empty line that holds the fields: what follows the
/// type character, without the line terminator.
pub open spec fn record_body(line: Seq<char>) -> Seq<char> {
    strip_line_end(line.skip(1))
}

/// The item and the display text that `line` stands for.
///
/// The checks are made in this order: an empty line, an unknown type
/// character, a malformed record, a bad telnet port.
pub open spec fn decode_record(line: Seq<char>) -> Result<(ItemView, Seq<char>), DecodeError> {
    if line.len() == 0 {
        Err(DecodeError::EmptyInput)
    } else if !is_wire_char(line[0]) {
        Err(DecodeError::UnknownItemType)
    } else {
        let kind = line[0];
        let body = record_body(line);
        let fields = split_fields(body);
        if has_line_break(body) || fields.len() < required_fields(kind) {
            Err(DecodeError::MalformedRecord)
        } else if carries_message(kind) {
            Ok((message_item(kind, fields[0]), fields[0]))
        } else if carries_selector(kind) {
            Ok((selector_item(kind, fields[1]), fields[0]))
        } else if is_port_text(fields[3]) {
            Ok(
                (
                    ItemView::Telnet(
                        TelnetView {
                            host: fields[2],
                            port: decimal_value(fields[3]),
                            login_name: fields[1],
                        },
                    ),
                    fields[0],
                ),
            )
        } else {
            Err(DecodeError::InvalidPort)
        }
    }
}

/// The one-character text of the type character of `item`.
fn type_prefix(item: &GopherItem<'_>) -> (t: &'static str)
    ensures
        t@ == seq![item@.wire_char()],
{
    proof {
        reveal_strlit("0");
        reveal_strlit("1");
        reveal_strlit("3");
        reveal_strlit("6");
        reveal_strlit("8");
        reveal_strlit("9");
        reveal_strlit("g");
        reveal_strlit("I");
        reveal_strlit("i");
    }
    let t = match item {
        GopherItem::TextFile(_) => "0",
        GopherItem::Directory(_) => "1",
        GopherItem::Error(_) => "3",
        GopherItem::UuFile(_) => "6",
        GopherItem::Telnet(_) => "8",
        GopherItem::Binary(_) => "9",
        GopherItem::Gif(_) => "g",
        GopherItem::Image(_) => "I",
        GopherItem::Info(_) => "i",
    };
    assert(t@ =~= seq![item@.wire_char()]);
    t
}

/// Whether `item` can be written.
pub fn check_wire_safe(item: &GopherItem<'_>) -> (b: bool)
    ensures
        b == is_wire_safe(item@),
{
    match item {
        GopherItem::Telnet(t) => check_field_text(t.host()) && check_field_text(t.login_name()),
        GopherItem::Error(m) | GopherItem::Info(m) => check_field_text(m.message()),
        GopherItem::TextFile(s)
        | GopherItem::Directory(s)
        | GopherItem::UuFile(s)
        | GopherItem::Binary(s)
        | GopherItem::Gif(s)
        | GopherItem::Image(s) => check_field_text(s.selector()),
    }
}

/// The texts of the selector and host fields of `item`, and the port where
/// a port field is written.
fn payload_parts<'a>(item: &GopherItem<'a>) -> (parts: (&'a str, &'a str, Option<u16>))
    ensures
        payload_fields(item@) == seq![
            parts.0@,
            parts.1@,
            match parts.2 {
                Some(port) => decimal_text(port as nat),
                None => Seq::empty(),
            },
        ],
{
    proof {
        reveal_strlit("");
    }
    let parts = match item {
        GopherItem::Telnet(t) => (t.login_name(), t.host(), Some(t.port())),
        GopherItem::Error(_) | GopherItem::Info(_) => ("", "", None),
        GopherItem::TextFile(s)
        | GopherItem::Directory(s)
        | GopherItem::UuFile(s)
        | GopherItem::Binary(s)
        | GopherItem::Gif(s)
        | GopherItem::Image(s) => (s.selector(), "", None),
    };
    assert(""@ =~= Seq::<char>::empty());
    parts
}

/// Writes `item`, labelled `display_text`, as one line of a listing.
///
/// Fails with [`EncodeError::InvalidField`] if and only if `display_text`
/// or a text of the payload holds a tab, a carriage return or a line feed.
/// Otherwise the line is the
/// type character, the display text, then the selector, host and port
/// fields of the item, each after a tab, and `\r\n`.
pub fn encode_item(item: &GopherItem<'_>, display_text: &str) -> (line: Result<
    String,
    EncodeError,
>)
    ensures
        match line {
            Ok(l) => encode_record(item@, display_text@) == Ok::<Seq<char>, EncodeError>(l@),
            Err(e) => encode_record(item@, display_text@) == Err::<Seq<char>, EncodeError>(e),
        },
{
    if !check_field_text(display_text) || !check_wire_safe(item) {
        return Err(EncodeError::InvalidField);
    }
    let (selector, host, port) = payload_parts(item);
    let ghost port_text = match port {
        Some(p) => decimal_text(p as nat),
        None => Seq::empty(),
    };
    proof {
        reveal_strlit("\t");
        reveal_strlit("\r\n");
        assert("\t"@ =~= seq!['\t']);
        assert("\r\n"@ =~= seq!['\r', '\n']);
        lemma_join_four(display_text@, selector@, host@, port_text);
        assert(seq![display_text@] + payload_fields(item@) =~= seq![
            display_text@,
            selector@,
            host@,
            port_text,
        ]);
    }
    let mut out = String::new();
    out.append(type_prefix(item));
    out.append(display_text);
    out.append("\t");
    out.append(selector);
    out.append("\t");
    out.append(host);
    out.append("\t");
    match port {
        Some(p) => {
            push_decimal(&mut out, p as u32);
        },
        None => {
            assert(out@ + port_text =~= out@);
        },
    }
    out.append("\r\n");
    assert(out@ =~= seq![item@.wire_char()] + join_fields(
        seq![display_text@, selector@, host@, port_text],
    ) + seq!['\r', '\n']);
    Ok(out)
}

/// The selector-carrying item of type `kind`.
fn make_selector_item<'a>(kind: char, selector: &'a str) -> (item: GopherItem<'a>)
    requires
        carries_selector(kind),
    ensures
        item@ == selector_item(kind, selector@),
{
    let s = Selector(selector);
    if kind == '0' {
        GopherItem::TextFile(s)
    } else if kind == '1' {
        GopherItem::Directory(s)
    } else if kind == '6' {
        GopherItem::UuFile(s)
    } else if kind == '9' {
        GopherItem::Binary(s)
    } else if kind == 'g' {
        GopherItem::Gif(s)
    } else {
        GopherItem::Image(s)
    }
}

/// Reads one line of a listing.
///
/// The line may end in `\r\n`, in a bare `\n`, or in neither. On success the
/// item comes with the display text of the line; both borrow from `line`.
/// Fields beyond those that the item type needs are ignored.
///
/// Fails with
/// - [`DecodeError::EmptyInput`] if the line has no characters;
/// - [`DecodeError::UnknownItemType`] if its first character is not a type
///   character;
/// - [`DecodeError::MalformedRecord`] if a carriage return or line feed
///   stands before the terminator, or a field that the type needs is
///   missing;
/// - [`DecodeError::InvalidPort`] if the port field of a telnet line is not
///   a decimal number in `0..=65535`.
pub fn decode_line<'a>(line: &'a str) -> (decoded: Result<(GopherItem<'a>, &'a str), DecodeError>)
    ensures
        match decoded {
            Ok((item, text)) => decode_record(line@) == Ok::<(ItemView, Seq<char>), DecodeError>(
                (item@, text@),
            ),
            Err(e) => decode_record(line@) == Err::<(ItemView, Seq<char>), DecodeError>(e),
        },
{
    let n: usize = line.unicode_len();
    if n == 0 {
        return Err(DecodeError::EmptyInput);
    }
    let kind = line.get_char(0);
    if !is_type_char(kind) {
        return Err(DecodeError::UnknownItemType);
    }
    let end: usize = if n >= 2 && line.get_char(n - 1) == '\n' {
        if n >= 3 && line.get_char(n - 2) == '\r' {
            n - 2
        } else {
            n - 1
        }
    } else {
        n
    };
    let body = line.substring_char(1, end);
    assert(body@ =~= record_body(line@)) by {
        let rest = line@.skip(1);
        assert(forall|j: int| 0 <= j < rest.len() ==> rest[j] == line@[j + 1]);
    }
    if contains_line_break(body) {
        return Err(DecodeError::MalformedRecord);
    }
    let fields = leading_fields(body, 4);
    let needed: usize = if kind == '3' || kind == 'i' {
        1
    } else if kind == '8' {
        4
    } else {
        2
    };
    if fields.len() < needed {
        return Err(DecodeError::MalformedRecord);
    }
    let text = fields[0];
    if kind == '3' {
        Ok((GopherItem::Error(Message(text)), text))
    } else if kind == 'i' {
        Ok((GopherItem::Info(Message(text)), text))
    } else if kind == '8' {
        match parse_port(fields[3]) {
            Some(port) => Ok((GopherItem::Telnet(TelnetData(fields[2], port, fields[1])), text)),
            None => Err(DecodeError::InvalidPort),
        }
    } else {
        Ok((make_selector_item(kind, fields[1]), text))
    }
}

} // verus!
