//! The calls into outside crates, each behind a trusted item whose contract
//! says what the outside function is believed to do.
use vstd::prelude::*;

verus! {

/// A lower-case hexadecimal digit.
pub open spec fn hex_digit(d: nat) -> char {
    if d < 10 {
        ((d + 48) as u32) as char
    } else {
        ((d + 87) as u32) as char
    }
}

/// How serde_json writes one character inside a JSON string: `"` and `\`
/// after a backslash; backspace, tab, line feed, form feed and carriage
/// return as `\b`, `\t`, `\n`, `\f`, `\r`; any other character below
/// U+0020 as `\u00` and two lower-case hex digits; any other character as
/// it is.
pub open spec fn json_escape(c: char) -> Seq<char> {
    if c == '"' {
        seq!['\\', '"']
    } else if c == '\\' {
        seq!['\\', '\\']
    } else if c == '\u{8}' {
        seq!['\\', 'b']
    } else if c == '\t' {
        seq!['\\', 't']
    } else if c == '\n' {
        seq!['\\', 'n']
    } else if c == '\u{c}' {
        seq!['\\', 'f']
    } else if c == '\r' {
        seq!['\\', 'r']
    } else if (c as nat) < 32 {
        seq!['\\', 'u', '0', '0', hex_digit((c as nat) / 16), hex_digit((c as nat) % 16)]
    } else {
        seq![c]
    }
}

/// The characters of a text, each written as `json_escape` says.
pub open spec fn json_escaped(s: Seq<char>) -> Seq<char>
    decreases s.len(),
{
    if s.len() == 0 {
        Seq::empty()
    } else {
        json_escaped(s.drop_last()) + json_escape(s.last())
    }
}

/// The JSON text of a string as serde_json prints it: the escaped
/// characters between double quotes.
pub open spec fn json_string_literal(s: Seq<char>) -> Seq<char> {
    seq!['"'] + json_escaped(s) + seq!['"']
}

/// Calls `Display` of `serde_json::Value::String` (serde_json's
/// `format_escaped_str` with its escape table and `write_char_escape`).
/// Believed: the result is the text between double quotes, each character
/// escaped as `json_escape` says.
#[verifier::external_body]
pub fn quote_json_string(s: &str) -> (r: String)
    ensures
        r@ == json_string_literal(s@),
{
    serde_json::Value::String(s.to_string()).to_string()
}

} // verus!

verus! {

/// reqwest's HTTP client, carried by the tool and used by the caller that
/// performs the requests.
#[verifier::external_type_specification]
#[verifier::external_body]
pub struct ExClient(reqwest::Client);

/// A parsed URL (`url::Url`, re-exported by reqwest).
#[verifier::external_type_specification]
#[verifier::external_body]
pub struct ExUrl(reqwest::Url);

/// The total request timeout a client holds, as whole seconds and
/// nanoseconds; `None` when it has none (what the builder's `timeout` sets
/// and `build` keeps as the client's total timeout).
pub uninterp spec fn client_total_timeout(c: reqwest::Client) -> Option<(u64, u32)>;

/// Calls `reqwest::Client::builder().timeout(..).build()`, with a total
/// request timeout of `secs` seconds. Believed: a client that comes back
/// holds that timeout. Whether building succeeds depends on the machine (the
/// TLS backend and the resolver configuration), so that is not promised.
#[verifier::external_body]
pub fn client_with_timeout(secs: u64) -> (r: Option<reqwest::Client>)
    ensures
        r matches Some(c) ==> client_total_timeout(c) == Some((secs, 0u32)),
{
    reqwest::Client::builder().timeout(std::time::Duration::from_secs(secs)).build().ok()
}

/// Calls `reqwest::Client::builder().build()`: a client with the default
/// configuration, as `Client::new` makes one, but handing back the failure
/// (which `Client::new` turns into a panic). Believed: a client that comes
/// back has no total timeout. Whether building succeeds depends on the
/// machine, so that is not promised.
#[verifier::external_body]
pub fn client_with_defaults() -> (r: Option<reqwest::Client>)
    ensures
        r matches Some(c) ==> client_total_timeout(c) is None,
{
    reqwest::Client::builder().build().ok()
}

/// The serialization of a URL (what `Url::as_str` returns); a `Url` holds it.
pub uninterp spec fn url_text(u: reqwest::Url) -> Seq<char>;

/// What `Url::parse` makes of a text: the serialization of the parsed URL,
/// or the message (`Display`) of the parse error.
pub uninterp spec fn url_parse_outcome(input: Seq<char>) -> Result<Seq<char>, Seq<char>>;

/// The serialization of a URL after `query_pairs_mut().append_pair(name,
/// value)`: the pair, form-urlencoded, appended to the query.
pub uninterp spec fn url_with_pair(url: Seq<char>, name: Seq<char>, value: Seq<char>) -> Seq<
    char,
>;

/// Calls `reqwest::Url::parse` (`url::Url::parse`). Believed: on success the
/// URL's serialization, and on failure the error's message, are what
/// `url_parse_outcome` names for the input.
#[verifier::external_body]
pub fn parse_url(input: &str) -> (r: Result<reqwest::Url, String>)
    ensures
        match r {
            Ok(u) => url_parse_outcome(input@) == Ok::<Seq<char>, Seq<char>>(url_text(u)),
            Err(m) => url_parse_outcome(input@) == Err::<Seq<char>, Seq<char>>(m@),
        },
{
    match reqwest::Url::parse(input) {
        Ok(u) => Ok(u),
        Err(e) => Err(e.to_string()),
    }
}

/// Calls `Url::query_pairs_mut().append_pair(name, value)`. Believed: the
/// serialization afterwards is `url_with_pair` of the one before.
#[verifier::external_body]
pub fn append_query_pair(u: &mut reqwest::Url, name: &str, value: &str)
    ensures
        url_text(*final(u)) == url_with_pair(url_text(*old(u)), name@, value@),
{
    u.query_pairs_mut().append_pair(name, value);
}

/// Calls `Url::as_str`. Believed: it returns the URL's serialization.
#[verifier::external_body]
pub fn url_string(u: &reqwest::Url) -> (r: String)
    ensures
        r@ == url_text(*u),
{
    u.as_str().to_string()
}

} // verus!
