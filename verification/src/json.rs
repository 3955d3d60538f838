//! JSON string literals, as serde_json writes them, and the JSON body of a
//! `sendMessage` call.

use vstd::prelude::*;

verus! {

/// Lower-case hexadecimal digit for `d < 16`.
pub open spec fn hex_digit_lower(d: nat) -> char {
    if d < 10 {
        (48 + d) as char
    } else {
        (87 + d) as char
    }
}

/// How one character appears inside a JSON string literal: `"` and `\` and
/// the control characters below U+0020 are escaped, everything else is kept.
pub open spec fn json_escape_char(c: char) -> Seq<char> {
    let u = c as u32;
    if c == '"' {
        seq!['\\', '"']
    } else if c == '\\' {
        seq!['\\', '\\']
    } else if u == 0x08 {
        seq!['\\', 'b']
    } else if u == 0x09 {
        seq!['\\', 't']
    } else if u == 0x0A {
        seq!['\\', 'n']
    } else if u == 0x0C {
        seq!['\\', 'f']
    } else if u == 0x0D {
        seq!['\\', 'r']
    } else if u < 0x20 {
        seq!['\\', 'u', '0', '0', hex_digit_lower((u / 16) as nat), hex_digit_lower((u % 16) as nat)]
    } else {
        seq![c]
    }
}

/// The escaped contents of a JSON string literal.
pub open spec fn json_escape(s: Seq<char>) -> Seq<char>
    decreases s.len(),
{
    if s.len() == 0 {
        Seq::empty()
    } else {
        json_escape(s.drop_last()) + json_escape_char(s.last())
    }
}

/// A complete JSON string literal for `s`, quotes included.
pub open spec fn json_quoted(s: Seq<char>) -> Seq<char> {
    seq!['"'] + json_escape(s) + seq!['"']
}

/// The compact JSON object `{"chat_id":<chat>,"text":<text>}` built from two
/// ready JSON literals.
pub open spec fn send_body_from_literals(chat_literal: Seq<char>, text_literal: Seq<char>) -> Seq<
    char,
> {
    "{\"chat_id\":"@ + chat_literal + ",\"text\":"@ + text_literal + "}"@
}

#[verifier::external_type_specification]
#[verifier::external_body]
pub struct ExJsonError(serde_json::Error);

/// Calls `serde_json::to_string` on a `str`.
///
/// Trusted: the serializer writes the string between double quotes and
/// escapes `"`, `\` and every byte below 0x20 (as `\b \t \n \f \r` where
/// those exist, else `\u00` and two lower-case hex digits), copying all other
/// bytes (serde_json's `format_escaped_str` and `ESCAPE` table). It writes
/// into an in-memory `Vec<u8>`, whose writes cannot fail, and a `str` has no
/// other error path, so the result is `Ok`.
#[verifier::external_body]
fn serde_json_quote(s: &str) -> (r: Result<String, serde_json::Error>)
    ensures
        r is Ok,
        r matches Ok(q) ==> q@ == json_quoted(s@),
{
    serde_json::to_string(s)
}

/// Assembles the `sendMessage` JSON body from the JSON literals of the chat
/// id and of the text.
pub fn send_body_from_literals_exec(chat_literal: &str, text_literal: &str) -> (body: String)
    ensures
        body@ == send_body_from_literals(chat_literal@, text_literal@),
{
    let mut body = String::from_str("{\"chat_id\":");
    body.append(chat_literal);
    body.append(",\"text\":");
    body.append(text_literal);
    body.append("}");
    body
}

/// The JSON body of a `sendMessage` call, `{"chat_id":"..","text":".."}`,
/// exactly as serde_json prints that object.
pub fn send_message_json_body(chat_id: &str, text: &str) -> (body: String)
    ensures
        body@ == send_body_from_literals(json_quoted(chat_id@), json_quoted(text@)),
{
    let chat = serde_json_quote(chat_id);
    let txt = serde_json_quote(text);
    match (chat, txt) {
        (Ok(c), Ok(t)) => send_body_from_literals_exec(c.as_str(), t.as_str()),
        _ => String::new(),
    }
}

} // verus!
