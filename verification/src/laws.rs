//! What holds between writing and reading, for every item and every line.

use vstd::prelude::*;

use crate::codec::{
    decode_record, encode_record, is_wire_safe, payload_fields, record_body, required_fields,
    DecodeError, EncodeError,
};
use crate::item::{
    carries_message, carries_selector, carries_telnet, is_wire_char, GopherItem, ItemView,
    TelnetData,
};
use crate::port::{decimal_text, is_digit, is_port_text, lemma_decimal_round_trip, PORT_MAX};
use crate::text::{
    has_line_break, has_tab, is_field_text, is_framing_char, is_line_break, join_fields,
    lemma_join_chars, lemma_join_split, lemma_split_chars, lemma_split_join,
    lemma_strip_line_end_of_terminated, split_fields,
};

verus! {

/// A line that starts with a type character.
pub open spec fn has_known_type(line: Seq<char>) -> bool {
    line.len() > 0 && is_wire_char(line[0])
}

/// A line that starts with a type character and is refused all the same:
/// its body holds a line break, it has too few fields for its type, or it
/// is a telnet line with a bad port.
pub open spec fn is_damaged(line: Seq<char>) -> bool {
    let body = record_body(line);
    let fields = split_fields(body);
    has_known_type(line) && (has_line_break(body) || fields.len() < required_fields(line[0]) || (
    carries_telnet(line[0]) && !is_port_text(fields[3])))
}

/// The text that an item with a message carries, which on the wire is the
/// display text of its line.
pub open spec fn message_of(item: ItemView) -> Option<Seq<char>> {
    match item {
        ItemView::Error(m) | ItemView::Info(m) => Some(m),
        _ => None,
    }
}

/// The decimal text of a number holds nothing that would break the framing.
pub proof fn lemma_decimal_text_is_field_text(n: nat)
    ensures
        is_field_text(decimal_text(n)),
{
    lemma_decimal_round_trip(n);
    let s = decimal_text(n);
    assert forall|i: int| 0 <= i < s.len() implies !is_framing_char(#[trigger] s[i]) by {
        assert(is_digit(s[i]));
    }
}

/// No telnet link holds a port above 65535, so an item can be written as
/// soon as its texts are clean: the port never stands in the way.
pub proof fn port_is_in_range(link: TelnetData<'_>)
    ensures
        link@.port <= PORT_MAX,
        is_wire_safe(GopherItem::Telnet(link)@) <==> is_field_text(link@.host) && is_field_text(
            link@.login_name,
        ),
{
}

/// Every variant has one type character, and it is one of the nine.
pub proof fn type_char_is_known(item: ItemView)
    ensures
        is_wire_char(item.wire_char()),
        carries_message(item.wire_char()) <==> message_of(item) is Some,
        carries_telnet(item.wire_char()) <==> item is Telnet,
        carries_selector(item.wire_char()) <==> !(message_of(item) is Some) && !(item is Telnet),
{
}

/// Reading is refused for an unknown type character exactly when the line
/// is not empty and its first character is none of the nine, and a line
/// that is read starts with one of them. Among the lines that are not
/// damaged in another way, the first character alone decides.
pub proof fn known_type_decides(line: Seq<char>)
    ensures
        decode_record(line) == Err::<(ItemView, Seq<char>), DecodeError>(
            DecodeError::UnknownItemType,
        ) <==> line.len() > 0 && !is_wire_char(line[0]),
        decode_record(line) is Ok ==> has_known_type(line),
        !is_damaged(line) ==> (decode_record(line) is Ok <==> has_known_type(line)),
{
}

/// Round trip: an item that can be written is read back unchanged from its
/// line, and so is the display text.
///
/// An item with a message has no field of its own on the line: its message
/// is the display text. The law therefore speaks of such an item only where
/// the two agree.
pub proof fn round_trip(item: ItemView, text: Seq<char>)
    requires
        is_field_text(text),
        is_wire_safe(item),
        message_of(item) matches Some(m) ==> m == text,
    ensures
        encode_record(item, text) matches Ok(line) && decode_record(line) == Ok::<
            (ItemView, Seq<char>),
            DecodeError,
        >((item, text)),
{
    let fields = seq![text] + payload_fields(item);
    let body = join_fields(fields);
    let line = seq![item.wire_char()] + body + seq!['\r', '\n'];
    assert(encode_record(item, text) == Ok::<Seq<char>, EncodeError>(line));
    assert(fields.len() == 4);
    if let ItemView::Telnet(t) = item {
        lemma_decimal_text_is_field_text(t.port);
        lemma_decimal_round_trip(t.port);
    }
    assert forall|k: int| 0 <= k < fields.len() implies is_field_text(#[trigger] fields[k]) by {
        if k > 0 {
            assert(fields[k] == payload_fields(item)[k - 1]);
        }
    }
    assert forall|k: int| 0 <= k < fields.len() implies !has_tab(#[trigger] fields[k]) by {
        assert(is_field_text(fields[k]));
    }
    assert(!has_line_break(body)) by {
        assert forall|i: int| 0 <= i < body.len() implies !is_line_break(#[trigger] body[i]) by {
            lemma_join_chars(fields, i);
            if body[i] != '\t' {
                let k = choose|k: int|
                    0 <= k < fields.len() && (#[trigger] fields[k]).contains(body[i]);
                assert(is_field_text(fields[k]));
            }
        }
    }
    lemma_strip_line_end_of_terminated(body);
    lemma_split_join(fields);
    assert(line.len() > 0 && line[0] == item.wire_char());
    assert(line.skip(1) =~= body + seq!['\r', '\n']);
    assert(record_body(line) == body);
    assert(split_fields(record_body(line)) == fields);
    assert(fields[0] == text);
    assert(fields[1] == payload_fields(item)[0]);
    assert(fields[2] == payload_fields(item)[1]);
    assert(fields[3] == payload_fields(item)[2]);
}

/// What is read can be written: the item of a line that was read is safe
/// for the wire, its type character is the first character of the line,
/// and an item with a message carries the display text.
pub proof fn decoded_is_wire_safe(line: Seq<char>)
    ensures
        decode_record(line) matches Ok((item, text)) ==> {
            &&& is_field_text(text)
            &&& is_wire_safe(item)
            &&& item.wire_char() == line[0]
            &&& message_of(item) matches Some(m) ==> m == text
        },
{
    if decode_record(line) is Ok {
        let body = record_body(line);
        let fields = split_fields(body);
        lemma_join_split(body);
        assert forall|k: int| 0 <= k < fields.len() implies is_field_text(#[trigger] fields[k]) by {
            let f = fields[k];
            assert(!has_tab(f));
            assert forall|j: int| 0 <= j < f.len() implies !is_framing_char(#[trigger] f[j]) by {
                lemma_split_chars(body, k, j);
            }
        }
        assert(is_field_text(fields[0]));
        if carries_message(line[0]) {
        } else if carries_selector(line[0]) {
            assert(is_field_text(fields[1]));
        } else {
            assert(is_field_text(fields[1]));
            assert(is_field_text(fields[2]));
        }
    }
}

/// Writing what was read and reading that again changes nothing: every
/// line that is read has a canonical line that reads as the same item and
/// display text.
pub proof fn reencoding_is_stable(line: Seq<char>)
    ensures
        decode_record(line) matches Ok((item, text)) ==> encode_record(item, text) matches Ok(
            canonical,
        ) && decode_record(canonical) == decode_record(line),
{
    if let Ok((item, text)) = decode_record(line) {
        decoded_is_wire_safe(line);
        round_trip(item, text);
    }
}

} // verus!
