//! The text frames of the realtime channel: the welcome on open, the answer
//! to a liveness probe, and the event that carries a new message.
use crate::messages::Message;
use crate::text::{decimal, decimal_string};
use vstd::prelude::*;

verus! {

/// The JSON string literal that serde_json writes for `s`: quotes around it,
/// with quotes, backslashes and control characters escaped.
pub uninterp spec fn json_quoted(s: Seq<char>) -> Seq<char>;

/// Relies on `serde_json::to_string` of a `str`, which writes the quoted and
/// escaped string into memory; it has no failure for a `str`.
#[verifier::external_body]
fn quote(s: &str) -> (r: String)
    ensures
        r@ == json_quoted(s@),
{
    serde_json::to_string(s).unwrap_or_default()
}

/// The items of `items` joined by commas.
pub open spec fn comma_joined(parts: Seq<Seq<char>>) -> Seq<char>
    decreases parts.len(),
{
    if parts.len() == 0 {
        Seq::empty()
    } else if parts.len() == 1 {
        parts[0]
    } else {
        comma_joined(parts.drop_last()) + ","@ + parts.last()
    }
}

/// Each string of `items` as a JSON string literal.
pub open spec fn quoted_items(items: Seq<String>) -> Seq<Seq<char>> {
    items.map_values(|s: String| json_quoted(s@))
}

/// The compact JSON array of the strings `items`.
pub open spec fn json_array_text(items: Seq<String>) -> Seq<char> {
    "["@ + comma_joined(quoted_items(items)) + "]"@
}

/// The compact JSON array whose elements are the string literals `quoted`.
pub fn array_of_quoted(quoted: &Vec<String>) -> (r: String)
    ensures
        r@ == "["@ + comma_joined(quoted@.map_values(|q: String| q@)) + "]"@,
{
    let ghost qv = quoted@.map_values(|q: String| q@);
    let mut body = String::new();
    let mut i: usize = 0;
    while i < quoted.len()
        invariant
            i <= quoted@.len(),
            qv == quoted@.map_values(|q: String| q@),
            body@ == comma_joined(qv.subrange(0, i as int)),
        decreases quoted@.len() - i,
    {
        proof {
            let next = qv.subrange(0, i + 1);
            assert(next.drop_last() =~= qv.subrange(0, i as int));
            assert(next.last() == quoted@[i as int]@);
        }
        if i == 0 {
            body = String::from_str(quoted[i].as_str());
        } else {
            body = body.concat(",").concat(quoted[i].as_str());
        }
        i = i + 1;
    }
    assert(qv.subrange(0, qv.len() as int) == qv);
    String::from_str("[").concat(body.as_str()).concat("]")
}

/// The compact JSON array of the strings `items`.
pub fn encode_list(items: &Vec<String>) -> (r: String)
    ensures
        r@ == json_array_text(items@),
{
    let mut quoted: Vec<String> = Vec::new();
    let mut i: usize = 0;
    while i < items.len()
        invariant
            i <= items@.len(),
            quoted@.map_values(|q: String| q@) == quoted_items(items@.subrange(0, i as int)),
        decreases items@.len() - i,
    {
        let ghost before = quoted@.map_values(|q: String| q@);
        let q = quote(items[i].as_str());
        quoted.push(q);
        proof {
            assert(quoted@.map_values(|q: String| q@) =~= before.push(q@));
            assert(quoted_items(items@.subrange(0, i + 1)) =~= quoted_items(
                items@.subrange(0, i as int),
            ).push(json_quoted(items@[i as int]@)));
        }
        i = i + 1;
    }
    assert(items@.subrange(0, items@.len() as int) == items@);
    array_of_quoted(&quoted)
}

/// The strings of the JSON array `text`, if it is an array of strings.
pub uninterp spec fn json_list_of(text: Seq<char>) -> Option<Seq<Seq<char>>>;

/// The characters of each string of an optional list.
pub open spec fn opt_list_view(o: Option<Vec<String>>) -> Option<Seq<Seq<char>>> {
    match o {
        Some(v) => Some(v@.map_values(|s: String| s@)),
        None => None,
    }
}

/// Relies on `serde_json::from_str` into a `Vec<String>`: the strings when
/// `text` is a JSON array of strings, nothing otherwise.
#[verifier::external_body]
pub(crate) fn decode_list(text: &str) -> (r: Option<Vec<String>>)
    ensures
        opt_list_view(r) == json_list_of(text@),
{
    serde_json::from_str::<Vec<String>>(text).ok()
}

/// The string member named `key` of the JSON object that `text` holds, if
/// `text` parses as JSON and that member is present and a string.
pub uninterp spec fn json_str_member(text: Seq<char>, key: Seq<char>) -> Option<Seq<char>>;

/// Relies on `serde_json::from_str` into a `serde_json::Value`, then
/// `Value::get` and `Value::as_str`: parse, look the key up, keep a string.
#[verifier::external_body]
fn str_member(text: &str, key: &str) -> (r: Option<String>)
    ensures
        match r {
            Some(v) => json_str_member(text@, key@) == Some(v@),
            None => json_str_member(text@, key@) is None,
        },
{
    let value = serde_json::from_str::<serde_json::Value>(text).ok()?;
    value.get(key).and_then(|member| member.as_str()).map(|s| s.to_string())
}

/// The characters of an optional string.
pub open spec fn opt_view(o: Option<String>) -> Option<Seq<char>> {
    match o {
        Some(v) => Some(v@),
        None => None,
    }
}

/// The welcome frame that a user gets when the channel opens.
pub open spec fn welcome_text(user_id: i32) -> Seq<char> {
    "{\"type\":\"system\",\"payload\":\"Connected as user "@ + decimal(user_id as int) + "\"}"@
}

/// The answer to a liveness probe.
pub open spec fn pong_text() -> Seq<char> {
    "{\"type\":\"pong\"}"@
}

/// The event that pushes message `m`, with its content already quoted.
pub open spec fn message_event_text(m: Message, quoted_content: Seq<char>) -> Seq<char> {
    "{\"type\":\"message\",\"payload\":{\"id\":"@ + decimal(m.id as int) + ",\"sender_id\":"@
        + decimal(m.sender_id as int) + ",\"receiver_id\":"@ + decimal(m.receiver_id as int)
        + ",\"content\":"@ + quoted_content + ",\"timestamp\":"@ + decimal(m.timestamp as int)
        + "}}"@
}

/// The reply to a text frame whose `type` member is `type_member`: a pong to
/// a probe, the text itself otherwise.
pub open spec fn reply_text(text: Seq<char>, type_member: Option<Seq<char>>) -> Seq<char> {
    if type_member == Some("ping"@) {
        pong_text()
    } else {
        text
    }
}

/// The welcome frame for `user_id`.
pub fn welcome(user_id: i32) -> (r: String)
    ensures
        r@ == welcome_text(user_id),
{
    let id = decimal_string(user_id as i64);
    let head = String::from_str("{\"type\":\"system\",\"payload\":\"Connected as user ");
    head.concat(id.as_str()).concat("\"}")
}

/// The pong frame.
pub fn pong() -> (r: String)
    ensures
        r@ == pong_text(),
{
    String::from_str("{\"type\":\"pong\"}")
}

/// The event for `m`, given its content as a JSON string literal.
pub fn message_event_with(m: &Message, quoted_content: &str) -> (r: String)
    ensures
        r@ == message_event_text(*m, quoted_content@),
{
    let s = String::from_str("{\"type\":\"message\",\"payload\":{\"id\":");
    let s = s.concat(decimal_string(m.id).as_str());
    let s = s.concat(",\"sender_id\":");
    let s = s.concat(decimal_string(m.sender_id as i64).as_str());
    let s = s.concat(",\"receiver_id\":");
    let s = s.concat(decimal_string(m.receiver_id as i64).as_str());
    let s = s.concat(",\"content\":");
    let s = s.concat(quoted_content);
    let s = s.concat(",\"timestamp\":");
    let s = s.concat(decimal_string(m.timestamp).as_str());
    s.concat("}}")
}

/// The event for `m`.
pub fn message_event(m: &Message) -> (r: String)
    ensures
        r@ == message_event_text(*m, json_quoted(m.content@)),
{
    let q = quote(m.content.as_str());
    message_event_with(m, q.as_str())
}

/// The reply to the text frame `text`, given its `type` member.
pub fn reply_with(text: &str, type_member: Option<String>) -> (r: String)
    ensures
        r@ == reply_text(text@, opt_view(type_member)),
{
    match type_member {
        Some(t) => {
            if t == String::from_str("ping") {
                pong()
            } else {
                String::from_str(text)
            }
        },
        None => String::from_str(text),
    }
}

/// The reply to the text frame `text`.
pub fn reply(text: &str) -> (r: String)
    ensures
        r@ == reply_text(text@, json_str_member(text@, "type"@)),
{
    let t = str_member(text, "type");
    let r = reply_with(text, t);
    proof {
        assert(opt_view(t) == json_str_member(text@, "type"@));
    }
    r
}

} // verus!
