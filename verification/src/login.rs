use vstd::prelude::*;
use crate::error::Error;
use crate::json::{extract_login_token, token_of};

verus! {

/// The account credentials, read from the environment by the caller and
/// validated here: both must be present and non-empty before any network
/// call is attempted.
#[derive(Debug)]
pub struct Config {
    pub email: String,
    pub password: String,
}

impl Config {
    /// Check the configuration: succeeds exactly when both the email and
    /// the password were supplied and are non-empty, and fails with the
    /// missing-configuration error otherwise.
    pub fn from_values(email: Option<String>, password: Option<String>) -> (r: Result<
        Config,
        Error,
    >)
        ensures
            match r {
                Ok(c) => (email matches Some(e) && (password matches Some(p) && (e@.len() > 0
                    && p@.len() > 0 && c.email@ == e@ && c.password@ == p@))),
                Err(err) => err == Error::MissingConfiguration && !(email matches Some(e) && (
                password matches Some(p) && (e@.len() > 0 && p@.len() > 0))),
            },
    {
        match (email, password) {
            (Some(e), Some(p)) => {
                if e.as_str().is_empty() || p.as_str().is_empty() {
                    Err(Error::MissingConfiguration)
                } else {
                    Ok(Config { email: e, password: p })
                }
            },
            _ => Err(Error::MissingConfiguration),
        }
    }
}

/// A lowercase hexadecimal digit character.
pub open spec fn hex_digit(d: nat) -> char {
    if d < 10 {
        crate::numfmt::dec_digit(d)
    } else if d == 10 {
        'a'
    } else if d == 11 {
        'b'
    } else if d == 12 {
        'c'
    } else if d == 13 {
        'd'
    } else if d == 14 {
        'e'
    } else {
        'f'
    }
}

/// How serde_json escapes one character inside a JSON string: quote and
/// backslash by a backslash, the five named control characters by their
/// short forms, the other control characters as `\u00..` with lowercase
/// hex, and every other character as itself.
pub open spec fn json_escaped_char(c: char) -> Seq<char> {
    if c == '"' {
        seq!['\\', '"']
    } else if c == '\\' {
        seq!['\\', '\\']
    } else if (c as nat) == 8 {
        seq!['\\', 'b']
    } else if (c as nat) == 9 {
        seq!['\\', 't']
    } else if (c as nat) == 10 {
        seq!['\\', 'n']
    } else if (c as nat) == 12 {
        seq!['\\', 'f']
    } else if (c as nat) == 13 {
        seq!['\\', 'r']
    } else if (c as nat) < 32 {
        seq!['\\', 'u', '0', '0', hex_digit((c as nat) / 16), hex_digit((c as nat) % 16)]
    } else {
        seq![c]
    }
}

/// Text with every character escaped as serde_json escapes it.
pub open spec fn json_escaped(s: Seq<char>) -> Seq<char>
    decreases s.len(),
{
    if s.len() == 0 {
        Seq::<char>::empty()
    } else {
        json_escaped_char(s[0]) + json_escaped(s.drop_first())
    }
}

/// A JSON string literal: the escaped text between double quotes.
pub open spec fn json_string_lit(s: Seq<char>) -> Seq<char> {
    seq!['"'] + json_escaped(s) + seq!['"']
}

/// The body the login endpoint is sent: a JSON object carrying the constant
/// placeholder device id and the two credentials, keys in sorted order.
pub open spec fn login_body_spec(email: Seq<char>, password: Seq<char>) -> Seq<char> {
    "{\"device_id\":\".\",\"email_address\":"@ + json_string_lit(email) + ",\"password\":"@
        + json_string_lit(password) + "}"@
}

/// Relies on serde_json::to_string: the three-field object is encoded
/// compactly, keys sorted (the map is tree-backed), each string escaped as
/// `json_escaped` states.
#[verifier::external_body]
fn encode_login_body(email: &str, password: &str) -> (r: String)
    ensures
        r@ == login_body_spec(email@, password@),
{
    let mut payload = serde_json::Map::new();
    payload.insert("device_id".to_owned(), serde_json::Value::String(".".to_owned()));
    payload.insert("email_address".to_owned(), serde_json::Value::String(email.to_owned()));
    payload.insert("password".to_owned(), serde_json::Value::String(password.to_owned()));
    match serde_json::to_string(&serde_json::Value::Object(payload)) {
        Ok(s) => s,
        Err(_) => String::new(),
    }
}

/// The body of the login request for a checked configuration: it carries
/// `email_address`, `password` and the constant `device_id` `"."`.
pub fn login_request_body(cfg: &Config) -> (r: String)
    ensures
        r@ == login_body_spec(cfg.email@, cfg.password@),
{
    encode_login_body(cfg.email.as_str(), cfg.password.as_str())
}

/// Classify the login response. A 200 whose body carried a token succeeds
/// with that token; a 401 means the credentials are wrong; everything else,
/// including a 200 whose body carried no token, is unexpected.
pub fn classify_login(status: u16, token: Option<String>) -> (r: Result<String, Error>)
    ensures
        match r {
            Ok(t) => status == 200 && (token matches Some(tk) && t@ == tk@),
            Err(e) => (status == 200 && token is None && e == Error::UnexpectedResponse) || (
            status == 401 && e == Error::InvalidCredentials) || (status != 200 && status != 401
                && e == Error::UnexpectedResponse),
        },
{
    if status == 200 {
        match token {
            Some(t) => Ok(t),
            None => Err(Error::UnexpectedResponse),
        }
    } else if status == 401 {
        Err(Error::InvalidCredentials)
    } else {
        Err(Error::UnexpectedResponse)
    }
}

/// Interpret a login response: pull the token out of the body, then
/// classify. A 401 always means invalid credentials; any status other than
/// 200 or 401 is unexpected; a 200 yields exactly the body's `{data:
/// {token}}` token, or the unexpected error when the body holds none.
pub fn login_response(status: u16, body: &str) -> (r: Result<String, Error>)
    ensures
        status == 401 ==> r == Err::<String, Error>(Error::InvalidCredentials),
        status != 200 && status != 401 ==> r == Err::<String, Error>(Error::UnexpectedResponse),
        status == 200 ==> match token_of(body@) {
            Some(t) => r matches Ok(s) && s@ == t,
            None => r == Err::<String, Error>(Error::UnexpectedResponse),
        },
{
    let token = extract_login_token(body);
    classify_login(status, token)
}

} // verus!
