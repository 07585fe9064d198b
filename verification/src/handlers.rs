//! The replies of the HTTP handlers, from what the database work gave.

use vstd::prelude::*;

verus! {

/// The text of the root page.
pub fn root() -> (page: String)
    ensures
        page@ == "New Apps 9 Learn Server API"@,
{
    "New Apps 9 Learn Server API".to_owned()
}

/// The reply to a request body that is not the JSON the handler expects.
pub fn invalid_json_reply() -> (reply: String)
    ensures
        reply@ == "invalid json"@,
{
    "invalid json".to_owned()
}

/// The reply that reports a failure, with its message.
pub open spec fn error_text(message: Seq<char>) -> Seq<char> {
    "error: "@ + message
}

/// The reply that reports a failure: `error: ` followed by the message.
pub fn error_reply(message: &str) -> (reply: String)
    ensures
        reply@ == error_text(message@),
{
    let mut reply = "error: ".to_owned();
    reply.append(message);
    reply
}

/// The reply of the sign-up handler: the new session's token, or the error.
pub fn signup_reply(outcome: Result<String, String>) -> (reply: String)
    ensures
        reply@ == match outcome {
            Ok(token) => token@,
            Err(message) => error_text(message@),
        },
{
    match outcome {
        Ok(token) => token,
        Err(message) => error_reply(message.as_str()),
    }
}

/// The reply of the login handler: the new session's token, `invalid
/// credentials` when the name or the password is wrong, or the error.
pub fn login_reply(outcome: Result<Option<String>, String>) -> (reply: String)
    ensures
        reply@ == match outcome {
            Ok(Some(token)) => token@,
            Ok(None) => "invalid credentials"@,
            Err(message) => error_text(message@),
        },
{
    match outcome {
        Ok(Some(token)) => token,
        Ok(None) => "invalid credentials".to_owned(),
        Err(message) => error_reply(message.as_str()),
    }
}

/// The reply of the get-user handler: the user as JSON, `not found` for an
/// unknown token, or the error.
pub fn get_user_reply(outcome: Result<Option<String>, String>) -> (reply: String)
    ensures
        reply@ == match outcome {
            Ok(Some(user_json)) => user_json@,
            Ok(None) => "not found"@,
            Err(message) => error_text(message@),
        },
{
    match outcome {
        Ok(Some(user_json)) => user_json,
        Ok(None) => "not found".to_owned(),
        Err(message) => error_reply(message.as_str()),
    }
}

/// A lower-case hexadecimal digit.
pub open spec fn hex_digit(v: int) -> char {
    if v < 10 {
        ('0' as int + v) as char
    } else {
        ('a' as int + v - 10) as char
    }
}

/// How `serde_json` writes a character inside a JSON string: `"` and `\`
/// and the control characters below U+0020 are escaped (`\b`, `\t`, `\n`,
/// `\f`, `\r` where JSON has a short form, `\u00XX` otherwise); every
/// other character is written as it is.
pub open spec fn json_escaped_char(c: char) -> Seq<char> {
    if c == '"' {
        seq!['\\', '"']
    } else if c == '\\' {
        seq!['\\', '\\']
    } else if c == '\u{8}' {
        seq!['\\', 'b']
    } else if c == '\t' {
        seq!['\\', 't']
    } else if c == '\n' {
        seq!['\\', 'n']
    } else if c == '\u{c}' {
        seq!['\\', 'f']
    } else if c == '\r' {
        seq!['\\', 'r']
    } else if (c as int) < 0x20 {
        seq!['\\', 'u', '0', '0', hex_digit(c as int / 16), hex_digit(c as int % 16)]
    } else {
        seq![c]
    }
}

/// The escaped characters of a text.
pub open spec fn json_escaped(text: Seq<char>) -> Seq<char>
    decreases text.len(),
{
    if text.len() == 0 {
        Seq::empty()
    } else {
        json_escaped(text.drop_last()) + json_escaped_char(text.last())
    }
}

/// A text as a JSON string literal.
pub open spec fn json_string(text: Seq<char>) -> Seq<char> {
    seq!['"'] + json_escaped(text) + seq!['"']
}

/// The JSON string literals of the texts, separated by commas.
pub open spec fn json_items(texts: Seq<Seq<char>>) -> Seq<char>
    decreases texts.len(),
{
    if texts.len() == 0 {
        Seq::empty()
    } else if texts.len() == 1 {
        json_string(texts[0])
    } else {
        json_items(texts.drop_last()) + seq![','] + json_string(texts.last())
    }
}

/// The compact JSON array of the texts, as `serde_json::to_string` writes a
/// list of strings: `[`, the items separated by commas, `]`.
pub open spec fn json_string_list(texts: Seq<Seq<char>>) -> Seq<char> {
    seq!['['] + json_items(texts) + seq![']']
}

/// `serde_json::Error`, carried through opaquely.
#[verifier::external_type_specification]
#[verifier::external_body]
pub struct ExJsonError(serde_json::Error);

/// `serde_json::to_string` on a list of strings. Claimed: it succeeds (a
/// string always serializes, and writing into the output `Vec<u8>` cannot
/// fail), and the text is the compact JSON array of the strings.
#[verifier::external_body]
fn names_to_json(names: &Vec<String>) -> (json: Result<String, serde_json::Error>)
    ensures
        json is Ok,
        json matches Ok(text) ==> text@ == json_string_list(names@.map_values(|n: String| n@)),
{
    serde_json::to_string(names)
}

/// The reply of the user-list handler: the names as a JSON list, or the
/// error.
pub fn user_list_reply(outcome: Result<Vec<String>, String>) -> (reply: String)
    ensures
        match outcome {
            Ok(names) => reply@ == json_string_list(names@.map_values(|n: String| n@)),
            Err(message) => reply@ == error_text(message@),
        },
{
    match outcome {
        Ok(names) => match names_to_json(&names) {
            Ok(json) => json,
            Err(_) => "[]".to_owned(),
        },
        Err(message) => error_reply(message.as_str()),
    }
}

} // verus!
