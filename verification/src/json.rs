//! Lines that are JSON but not in the form this library writes: serde_json
//! reads them, and the fields of a message are picked from what it found.

use vstd::prelude::*;
use crate::message::{Message, MessageKind, MessageView};
use crate::text::same_text;

verus! {

/// What `serde_json::from_str` makes of `text` when it is asked for a map
/// from strings to strings: the map's entries, ordered by key, or `None`
/// where it reports an error.
pub uninterp spec fn json_text_object(text: Seq<char>) -> Option<Seq<(Seq<char>, Seq<char>)>>;

/// The entries of `fields` as texts.
pub open spec fn fields_view(fields: Seq<(String, String)>) -> Seq<(Seq<char>, Seq<char>)> {
    fields.map_values(|f: (String, String)| (f.0@, f.1@))
}

/// Calls `serde_json::from_str::<BTreeMap<String, String>>` on `line`. The
/// contract claims only that the outcome depends on the text of `line` and
/// on nothing else; it says nothing of which texts are read, nor as what.
#[verifier::external_body]
fn parse_text_object(line: &str) -> (fields: Option<Vec<(String, String)>>)
    ensures
        match fields {
            Some(v) => json_text_object(line@) == Some(fields_view(v@)),
            None => json_text_object(line@) is None,
        },
{
    match serde_json::from_str::<std::collections::BTreeMap<String, String>>(line) {
        Ok(map) => Some(map.into_iter().collect()),
        Err(_) => None,
    }
}

/// The value of the first entry of `fields` whose key is `key`.
pub open spec fn field_value(fields: Seq<(Seq<char>, Seq<char>)>, key: Seq<char>) -> Option<
    Seq<char>,
>
    decreases fields.len(),
{
    if fields.len() == 0 {
        None
    } else if fields[0].0 == key {
        Some(fields[0].1)
    } else {
        field_value(fields.skip(1), key)
    }
}

/// The kind that `name` names on the wire.
pub open spec fn kind_named(name: Seq<char>) -> Option<MessageKind> {
    if name == "UserMessage"@ {
        Some(MessageKind::UserMessage)
    } else if name == "SystemNotification"@ {
        Some(MessageKind::SystemNotification)
    } else {
        None
    }
}

/// The message whose four fields stand among `fields`. Other entries are
/// passed over; a lacking field, or a kind of an unknown name, gives `None`.
pub open spec fn record_of(fields: Seq<(Seq<char>, Seq<char>)>) -> Option<MessageView> {
    let username = field_value(fields, "username"@);
    let content = field_value(fields, "content"@);
    let timestamp = field_value(fields, "timestamp"@);
    let kind = field_value(fields, "message_type"@);
    if username is Some && content is Some && timestamp is Some && kind is Some && kind_named(
        kind.unwrap(),
    ) is Some {
        Some(
            MessageView {
                username: username.unwrap(),
                content: content.unwrap(),
                timestamp: timestamp.unwrap(),
                kind: kind_named(kind.unwrap()).unwrap(),
            },
        )
    } else {
        None
    }
}

/// Looks `key` up among `fields`.
fn find_field(fields: &Vec<(String, String)>, key: &str) -> (found: Option<String>)
    ensures
        match found {
            Some(v) => field_value(fields_view(fields@), key@) == Some(v@),
            None => field_value(fields_view(fields@), key@) is None,
        },
{
    let ghost all = fields_view(fields@);
    let mut i: usize = 0;
    assert(all.skip(0) =~= all);
    while i < fields.len()
        invariant
            i <= fields.len(),
            all == fields_view(fields@),
            field_value(all, key@) == field_value(all.skip(i as int), key@),
        decreases fields.len() - i,
    {
        assert(all.skip(i as int)[0] == all[i as int]);
        assert(all.skip(i as int).skip(1) =~= all.skip(i + 1));
        if same_text(fields[i].0.as_str(), key) {
            return Some(fields[i].1.clone());
        }
        i += 1;
    }
    None
}

/// Reads the name of a kind.
fn kind_of_name(name: &str) -> (kind: Option<MessageKind>)
    ensures
        kind == kind_named(name@),
{
    if same_text(name, "UserMessage") {
        Some(MessageKind::UserMessage)
    } else if same_text(name, "SystemNotification") {
        Some(MessageKind::SystemNotification)
    } else {
        None
    }
}

/// Builds the message from the entries of a JSON object, as `record_of`
/// says.
pub fn record_of_fields(fields: &Vec<(String, String)>) -> (found: Option<Message>)
    ensures
        match found {
            Some(m) => record_of(fields_view(fields@)) == Some(m@),
            None => record_of(fields_view(fields@)) is None,
        },
{
    let username = match find_field(fields, "username") {
        Some(v) => v,
        None => { return None; },
    };
    let content = match find_field(fields, "content") {
        Some(v) => v,
        None => { return None; },
    };
    let timestamp = match find_field(fields, "timestamp") {
        Some(v) => v,
        None => { return None; },
    };
    let name = match find_field(fields, "message_type") {
        Some(v) => v,
        None => { return None; },
    };
    let kind = match kind_of_name(name.as_str()) {
        Some(k) => k,
        None => { return None; },
    };
    Some(Message { username, content, timestamp, kind })
}

/// What a line that is JSON, but not in the form this library writes, says.
pub open spec fn lenient_record(line: Seq<char>) -> Option<MessageView> {
    match json_text_object(line) {
        Some(fields) => record_of(fields),
        None => None,
    }
}

/// Reads `line` as a JSON object whose values are strings and builds the
/// message from its entries.
pub fn decode_lenient(line: &str) -> (found: Option<Message>)
    ensures
        match found {
            Some(m) => lenient_record(line@) == Some(m@),
            None => lenient_record(line@) is None,
        },
{
    match parse_text_object(line) {
        Some(fields) => record_of_fields(&fields),
        None => None,
    }
}

} // verus!
