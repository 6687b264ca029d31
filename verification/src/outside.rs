//! What the library has from other crates and from the parts of the standard
//! library that are not specified elsewhere. Nothing here is proved: each
//! contract states what the called function is relied on for.

use crate::money::{money_text, Money};
use crate::numeral::hex_char;
use crate::text::opt_view;
use rust_decimal::Decimal;
use sha2::{Digest, Sha256};
use std::str::FromStr;
use vstd::prelude::*;
use vstd::utf8::{decode_utf8, encode_utf8, valid_utf8};

verus! {

/// The scheme and the host of a URL.
pub struct UrlParts {
    pub scheme: String,
    pub host: Option<String>,
}

/// What a JSON text holds, as far as strings go.
#[derive(Debug)]
pub enum Document {
    /// The text is no JSON document.
    Malformed,
    /// The document is a string.
    Text(String),
    /// The document is an object: its keys, each once, with the content of the
    /// values that are strings.
    Object(Vec<(String, Option<String>)>),
    /// The document is anything else.
    Other,
}

/// The mathematical content of a `Document`.
pub enum DocumentView {
    Malformed,
    Text(Seq<char>),
    Object(Seq<(Seq<char>, Option<Seq<char>>)>),
    Other,
}

/// The keys and the strings of an object.
pub open spec fn member_views(members: Seq<(String, Option<String>)>) -> Seq<
    (Seq<char>, Option<Seq<char>>),
> {
    members.map_values(|member: (String, Option<String>)| (member.0@, opt_view(member.1)))
}

impl View for Document {
    type V = DocumentView;

    open spec fn view(&self) -> DocumentView {
        match *self {
            Document::Malformed => DocumentView::Malformed,
            Document::Text(s) => DocumentView::Text(s@),
            Document::Object(members) => DocumentView::Object(member_views(members@)),
            Document::Other => DocumentView::Other,
        }
    }
}

/// The 32 bytes that SHA-256 gives for a message.
pub uninterp spec fn sha256_digest(data: Seq<u8>) -> Seq<u8>;

/// What the URL parser reads out of a text: scheme and host.
pub uninterp spec fn url_parts(text: Seq<char>) -> Option<(Seq<char>, Option<Seq<char>>)>;

/// What the JSON parser reads out of a text.
pub uninterp spec fn json_document(text: Seq<char>) -> DocumentView;

/// What `Decimal::from_str` reads out of a text.
pub uninterp spec fn decimal_from_str(text: Seq<char>) -> Option<Money>;

/// What `Decimal::from_scientific` reads out of a text.
pub uninterp spec fn decimal_from_scientific(text: Seq<char>) -> Option<Money>;

/// The text of bytes that need not be UTF-8.
pub uninterp spec fn lossy_text(bytes: Seq<u8>) -> Seq<char>;

/// A character as it stands between the quotes of a JSON string.
pub open spec fn json_escaped(c: char) -> Seq<char> {
    if c == '"' {
        seq!['\\', '"']
    } else if c == '\\' {
        seq!['\\', '\\']
    } else if c as u32 == 8 {
        seq!['\\', 'b']
    } else if c as u32 == 9 {
        seq!['\\', 't']
    } else if c as u32 == 10 {
        seq!['\\', 'n']
    } else if c as u32 == 12 {
        seq!['\\', 'f']
    } else if c as u32 == 13 {
        seq!['\\', 'r']
    } else if (c as u32) < 32 {
        seq!['\\', 'u', '0', '0', hex_char(c as nat / 16), hex_char(c as nat % 16)]
    } else {
        seq![c]
    }
}

/// A JSON string without its quotes.
pub open spec fn json_contents(s: Seq<char>) -> Seq<char>
    decreases s.len(),
{
    if s.len() == 0 {
        Seq::empty()
    } else {
        json_contents(s.drop_last()) + json_escaped(s.last())
    }
}

/// A JSON string.
pub open spec fn json_quoted(s: Seq<char>) -> Seq<char> {
    seq!['"'] + json_contents(s) + seq!['"']
}

/// Calls `sha2::Sha256`: the digest of the whole message, 32 bytes long, and
/// a function of the message alone.
#[verifier::external_body]
pub(crate) fn sha256(data: &[u8]) -> (r: Vec<u8>)
    ensures
        r@ == sha256_digest(data@),
        r@.len() == 32,
{
    let mut hasher = Sha256::new();
    hasher.update(data);
    hasher.finalize().to_vec()
}

/// Calls `url::Url::parse`, and `scheme` and `host_str` on the URL that it
/// gives: `None` where the text is no absolute URL. All of it depends on the
/// text alone.
#[verifier::external_body]
pub(crate) fn parse_url(text: &str) -> (r: Option<UrlParts>)
    ensures
        url_parts(text@) == match r {
            Some(parts) => Some((parts.scheme@, opt_view(parts.host))),
            None => None,
        },
{
    url::Url::parse(text).ok().map(
        |url| UrlParts {
            scheme: url.scheme().to_string(),
            host: url.host_str().map(|host| host.to_string()),
        },
    )
}

/// Calls `serde_json::from_str` for a JSON value, which depends on the text
/// alone, and hands it out with its strings: a malformed text, a string, the
/// members of an object, or anything else.
#[verifier::external_body]
pub(crate) fn parse_document(text: &str) -> (r: Document)
    ensures
        r@ == json_document(text@),
{
    let member = |value| match value {
        serde_json::Value::String(content) => Some(content),
        _ => None,
    };
    match serde_json::from_str::<serde_json::Value>(text) {
        Err(_) => Document::Malformed,
        Ok(serde_json::Value::String(content)) => Document::Text(content),
        Ok(serde_json::Value::Object(map)) => Document::Object(
            map.into_iter().map(|(key, value)| (key, member(value))).collect(),
        ),
        Ok(_) => Document::Other,
    }
}

/// Calls `serde_json::to_vec` on a string: its JSON form in UTF-8, with the
/// quotes, the backslash and the control characters below the space escaped.
#[verifier::external_body]
pub(crate) fn encode_json_text(text: &str) -> (r: Vec<u8>)
    ensures
        r@ == encode_utf8(json_quoted(text@)),
{
    serde_json::to_vec(text).unwrap_or_default()
}

/// Calls `serde_json::to_vec` on a truth value: the word `true` or `false`.
#[verifier::external_body]
pub(crate) fn encode_json_bool(value: bool) -> (r: Vec<u8>)
    ensures
        r@ == encode_utf8(if value { "true"@ } else { "false"@ }),
{
    serde_json::to_vec(&value).unwrap_or_default()
}

/// Calls `rust_decimal::Decimal::from_str`; what it reads depends on the text
/// alone, and has at most 96 bits and 28 decimal places.
#[verifier::external_body]
pub(crate) fn parse_decimal(text: &str) -> (r: Option<Money>)
    ensures
        r == decimal_from_str(text@),
        r matches Some(m) ==> m.wf(),
{
    Decimal::from_str(text).ok().map(|d| Money { mantissa: d.mantissa(), scale: d.scale() })
}

/// Calls `rust_decimal::Decimal::from_scientific`; what it reads depends on
/// the text alone, and has at most 96 bits and 28 decimal places.
#[verifier::external_body]
pub(crate) fn parse_scientific(text: &str) -> (r: Option<Money>)
    ensures
        r == decimal_from_scientific(text@),
        r matches Some(m) ==> m.wf(),
{
    Decimal::from_scientific(text).ok().map(
        |d| Money { mantissa: d.mantissa(), scale: d.scale() },
    )
}

/// Calls `rust_decimal::Decimal::from_i128_with_scale`, which panics on
/// amounts beyond 96 bits or 28 decimal places, and prints the decimal: all
/// its decimal places, and at least one digit before the point.
#[verifier::external_body]
pub(crate) fn print_decimal(amount: &Money) -> (r: String)
    requires
        amount.wf(),
    ensures
        r@ == money_text(amount.mantissa as int, amount.scale as nat),
{
    Decimal::from_i128_with_scale(amount.mantissa, amount.scale).to_string()
}

/// Calls `std::str::from_utf8`: the text that the bytes encode, if they are
/// UTF-8.
#[verifier::external_body]
pub(crate) fn utf8_text(bytes: &[u8]) -> (r: Option<&str>)
    ensures
        match r {
            Some(s) => valid_utf8(bytes@) && s@ == decode_utf8(bytes@),
            None => !valid_utf8(bytes@),
        },
{
    std::str::from_utf8(bytes).ok()
}

/// Calls `String::from_utf8_lossy`: the text that the bytes encode if they
/// are UTF-8; where they are not, replacement characters stand for what does
/// not decode.
#[verifier::external_body]
pub(crate) fn utf8_lossy(bytes: &[u8]) -> (r: String)
    ensures
        r@ == lossy_text(bytes@),
        valid_utf8(bytes@) ==> r@ == decode_utf8(bytes@),
{
    String::from_utf8_lossy(bytes).into_owned()
}

} // verus!
