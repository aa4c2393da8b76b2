//! String formats. A format governs strings only: any other value is
//! outside its jurisdiction and passes.

use crate::json_schema::errors::{ErrorKind, ErrorRecord, RecordView};
use crate::json_schema::keywords::Keyword;
use crate::json_schema::scope::Scope;
use crate::json_schema::state::ValidationState;
use crate::json_schema::validators::Constraint;
use crate::json_schema::validators::address::{
    is_hex_digit, is_ipv4, is_ipv4_address, is_ipv6, is_ipv6_address,
};
use crate::text::optional_text;
use crate::value::{Json, Value};
use vstd::prelude::*;

verus! {

/// What a format reports of `value` at `path`, where `failure` gives, for
/// a text, the description of why it is not of the format, or `None` for a
/// text that is: nothing for a value that is not a string or whose text is
/// of the format, else one record of kind [`ErrorKind::Format`].
pub open spec fn format_outcome(
    failure: spec_fn(Seq<char>) -> Option<Seq<char>>,
    value: Json,
    path: Seq<char>,
) -> Seq<RecordView> {
    match value {
        Json::String(text) => report_outcome(failure(text), path),
        _ => Seq::empty(),
    }
}

/// What is reported at `path` of a text with the given parse failure.
pub open spec fn report_outcome(failure: Option<Seq<char>>, path: Seq<char>) -> Seq<RecordView> {
    match failure {
        None => Seq::empty(),
        Some(detail) => seq![RecordView { kind: ErrorKind::Format, path, detail }],
    }
}

/// The state that reports, at `path`, a text with the given parse failure.
pub fn report(failure: Option<String>, path: &str) -> (state: ValidationState)
    ensures
        state@ == report_outcome(optional_text(failure), path@),
{
    match failure {
        None => ValidationState::new(),
        Some(detail) => ValidationState::error(
            ErrorRecord { kind: ErrorKind::Format, path: path.to_owned(), detail },
        ),
    }
}

/// `failure` with `prefix` before its description.
pub open spec fn prefixed(prefix: Seq<char>, failure: Option<Seq<char>>) -> Option<Seq<char>> {
    match failure {
        Some(detail) => Some(prefix + detail),
        None => None,
    }
}

/// Puts `prefix` before the description of a parse failure.
pub fn prefix_failure(prefix: &str, failure: Option<String>) -> (described: Option<String>)
    ensures
        optional_text(described) == prefixed(prefix@, optional_text(failure)),
{
    match failure {
        Some(detail) => {
            let mut text: String = prefix.to_owned();
            text.append(detail.as_str());
            Some(text)
        },
        None => None,
    }
}

/// Why `text` is not an IPv4 address, if it is not.
pub open spec fn ipv4_failure(text: Seq<char>) -> Option<Seq<char>> {
    if is_ipv4(text) {
        None
    } else {
        Some("Wrong IP address"@)
    }
}

/// Why `text` is not an IPv6 address, if it is not.
pub open spec fn ipv6_failure(text: Seq<char>) -> Option<Seq<char>> {
    if is_ipv6(text) {
        None
    } else {
        Some("Wrong IP address"@)
    }
}

/// The format of IPv4 addresses in dotted-decimal form.
#[derive(Debug)]
pub struct Ipv4 {
    /// Where in its schema document the format was declared.
    pub fragment: Vec<String>,
}

impl Ipv4 {
    /// Checks that `val`, if it is a string, is an IPv4 address.
    pub fn validate<K: Keyword<C>, C: Constraint>(
        &self,
        val: &Value,
        path: &str,
        _scope: &Scope<K, C>,
    ) -> (state: ValidationState)
        ensures
            state@ == format_outcome(|text: Seq<char>| ipv4_failure(text), val@, path@),
    {
        let string: &str = match val.as_str() {
            Some(string) => string,
            None => {
                return ValidationState::new();
            },
        };
        if is_ipv4_address(string) {
            report(None, path)
        } else {
            report(Some("Wrong IP address".to_owned()), path)
        }
    }
}

/// The format of IPv6 addresses.
#[derive(Debug)]
pub struct Ipv6 {
    /// Where in its schema document the format was declared.
    pub fragment: Vec<String>,
}

impl Ipv6 {
    /// Checks that `val`, if it is a string, is an IPv6 address.
    pub fn validate<K: Keyword<C>, C: Constraint>(
        &self,
        val: &Value,
        path: &str,
        _scope: &Scope<K, C>,
    ) -> (state: ValidationState)
        ensures
            state@ == format_outcome(|text: Seq<char>| ipv6_failure(text), val@, path@),
    {
        let string: &str = match val.as_str() {
            Some(string) => string,
            None => {
                return ValidationState::new();
            },
        };
        if is_ipv6_address(string) {
            report(None, path)
        } else {
            report(Some("Wrong IP address".to_owned()), path)
        }
    }
}

/// Thirty-six characters: hexadecimal digits in groups of 8, 4, 4, 4 and
/// 12, with a hyphen between neighbours.
pub open spec fn is_hyphenated_uuid(text: Seq<char>) -> bool {
    &&& text.len() == 36
    &&& forall|i: int|
        0 <= i < 36 ==> if i == 8 || i == 13 || i == 18 || i == 23 {
            #[trigger] text[i] == '-'
        } else {
            is_hex_digit(text[i])
        }
}

/// Whether `a` and `b` are the same but for the case of ASCII letters.
pub open spec fn same_ignoring_ascii_case(a: Seq<char>, b: Seq<char>) -> bool {
    &&& a.len() == b.len()
    &&& forall|i: int| 0 <= i < a.len() ==> ascii_lower(#[trigger] a[i]) == ascii_lower(b[i])
}

/// `c` in lower case where it is an ASCII capital, else `c`.
pub open spec fn ascii_lower(c: char) -> char {
    if 'A' <= c <= 'Z' {
        ((c as u8) + 32) as char
    } else {
        c
    }
}

/// The texts that are read as a UUID: thirty-two hexadecimal digits; the
/// hyphenated form; the hyphenated form in braces; and the hyphenated form
/// behind `urn:uuid:` in either case.
pub open spec fn is_uuid_text(text: Seq<char>) -> bool {
    ||| text.len() == 32 && forall|i: int| 0 <= i < 32 ==> is_hex_digit(#[trigger] text[i])
    ||| is_hyphenated_uuid(text)
    ||| text.len() == 38 && text[0] == '{' && text[37] == '}' && is_hyphenated_uuid(
        text.subrange(1, 37),
    )
    ||| text.len() == 45 && same_ignoring_ascii_case(text.take(9), "urn:uuid:"@)
        && is_hyphenated_uuid(text.skip(9))
}

/// What the `uuid` crate says of why `text` is not a UUID, in the debug
/// rendering of its error; `None` for a text that it reads as a UUID.
pub uninterp spec fn uuid_parse_failure(text: Seq<char>) -> Option<Seq<char>>;

/// What the `url` crate says of why `text` is not a locator, read as an
/// absolute URL or else as a reference relative to the absolute URL `base`,
/// in the display rendering of its error; `None` for a text that it reads,
/// and the error of `base` where that is no absolute URL itself.
pub uninterp spec fn url_reference_failure(base: Seq<char>, text: Seq<char>) -> Option<Seq<char>>;

/// The base against which a relative locator is read: a location that
/// stands for no document in particular, with an empty host and the path
/// `/`. Its scheme is no scheme of the web, so a text with a scheme of its
/// own is read as it would be without a base.
pub open spec fn locator_base() -> Seq<char> {
    "json-schema:///"@
}

/// Parses `text` with `uuid::Uuid`'s `FromStr` and, where that fails,
/// hands back the debug rendering of the error.
///
/// Trusted: the result is a function of the text alone, and the parse
/// succeeds exactly on the four forms of [`is_uuid_text`], as the crate's
/// parser shows.
#[verifier::external_body]
fn parse_uuid(text: &str) -> (failure: Option<String>)
    ensures
        optional_text(failure) == uuid_parse_failure(text@),
        failure is None <==> is_uuid_text(text@),
{
    match text.parse::<uuid::Uuid>() {
        Ok(_) => None,
        Err(err) => Some(format!("{:?}", err)),
    }
}

/// Parses `text` with `url::ParseOptions::parse`, with the base URL set to
/// what `url::Url::parse` makes of `base`, and, where either fails, hands
/// back the display rendering of the error.
///
/// Trusted: the result is a function of the two texts alone.
#[verifier::external_body]
fn parse_url_reference(base: &str, text: &str) -> (failure: Option<String>)
    ensures
        optional_text(failure) == url_reference_failure(base@, text@),
{
    let base_url = match url::Url::parse(base) {
        Ok(base_url) => base_url,
        Err(err) => return Some(format!("{}", err)),
    };
    match url::Url::options().base_url(Some(&base_url)).parse(text) {
        Ok(_) => None,
        Err(err) => Some(format!("{}", err)),
    }
}

/// Why `text` is not a UUID, if it is not.
pub open spec fn uuid_failure(text: Seq<char>) -> Option<Seq<char>> {
    prefixed("Malformed UUID: "@, uuid_parse_failure(text))
}

/// Why `text` is not a locator, absolute or relative, if it is not.
pub open spec fn uri_failure(text: Seq<char>) -> Option<Seq<char>> {
    prefixed("Malformed URI: "@, url_reference_failure(locator_base(), text))
}

/// The format of UUIDs.
#[derive(Debug)]
pub struct Uuid {
    /// Where in its schema document the format was declared.
    pub fragment: Vec<String>,
}

impl Uuid {
    /// Checks that `val`, if it is a string, is a UUID.
    pub fn validate<K: Keyword<C>, C: Constraint>(
        &self,
        val: &Value,
        path: &str,
        _scope: &Scope<K, C>,
    ) -> (state: ValidationState)
        ensures
            state@ == format_outcome(|text: Seq<char>| uuid_failure(text), val@, path@),
            val@ matches Json::String(text) ==> (state@.len() == 0 <==> is_uuid_text(text)),
    {
        let string: &str = match val.as_str() {
            Some(string) => string,
            None => {
                return ValidationState::new();
            },
        };
        report(prefix_failure("Malformed UUID: ", parse_uuid(string)), path)
    }
}

/// The format of locators: absolute URLs and relative references.
#[derive(Debug)]
pub struct Uri {
    /// Where in its schema document the format was declared.
    pub fragment: Vec<String>,
}

impl Uri {
    /// Checks that `val`, if it is a string, is a locator: an absolute URL,
    /// or a reference that can be read relative to [`locator_base`].
    pub fn validate<K: Keyword<C>, C: Constraint>(
        &self,
        val: &Value,
        path: &str,
        _scope: &Scope<K, C>,
    ) -> (state: ValidationState)
        ensures
            state@ == format_outcome(|text: Seq<char>| uri_failure(text), val@, path@),
    {
        let string: &str = match val.as_str() {
            Some(string) => string,
            None => {
                return ValidationState::new();
            },
        };
        report(
            prefix_failure("Malformed URI: ", parse_url_reference("json-schema:///", string)),
            path,
        )
    }
}

/// A format passes every value that is not a string, whatever the format.
pub proof fn law_format_jurisdiction(
    failure: spec_fn(Seq<char>) -> Option<Seq<char>>,
    value: Json,
    path: Seq<char>,
)
    requires
        !(value is String),
    ensures
        format_outcome(failure, value, path).len() == 0,
{
}

/// A format reports at most one record, of kind [`ErrorKind::Format`] and
/// at the path of the value.
pub proof fn law_format_reports_one(
    failure: spec_fn(Seq<char>) -> Option<Seq<char>>,
    value: Json,
    path: Seq<char>,
)
    ensures
        format_outcome(failure, value, path).len() <= 1,
        forall|i: int|
            0 <= i < format_outcome(failure, value, path).len() ==> {
                &&& (#[trigger] format_outcome(failure, value, path)[i]).kind == ErrorKind::Format
                &&& format_outcome(failure, value, path)[i].path == path
            },
{
}

} // verus!
