//! Recognising input that is a web page address rather than a query.
use vstd::prelude::*;

verus! {

/// `regex::Error`, carried through opaque.
#[verifier::external_type_specification]
#[verifier::external_body]
pub struct ExRegexError(regex::Error);

/// Whether the regular expression `pattern` matches somewhere in `input`,
/// as `regex` decides it, or `None` where `regex` rejects the pattern.
pub uninterp spec fn regex_match(pattern: Seq<char>, input: Seq<char>) -> Option<bool>;

/// Relies on `regex::Regex::new` to compile the pattern and on
/// `Regex::is_match` to search the input with it.
#[verifier::external_body]
fn pattern_matches(pattern: &str, input: &str) -> (r: Result<bool, regex::Error>)
    ensures
        r is Ok <==> regex_match(pattern@, input@) is Some,
        r is Ok ==> r->Ok_0 == regex_match(pattern@, input@)->0,
{
    regex::Regex::new(pattern).map(|re| re.is_match(input))
}

/// A host name, with an optional scheme and path.
pub open spec fn domain_pattern() -> Seq<char> {
    r"^(https?:\/\/)?(([a-z0-9]+(-[a-z0-9]+)*\.)+[a-z]{2,})(\/\S+)?$"@
}

/// A dotted IPv4 address, with an optional scheme and path.
pub open spec fn ipv4_pattern() -> Seq<char> {
    r"^(https?:\/\/)?(((25[0-5]|2[0-4][0-9]|[01]?[0-9][0-9]?)\.){3}(?:25[0-5]|2[0-4][0-9]|[01]?[0-9][0-9]?))(\/\S+)?$"@
}

/// `localhost`, with an optional scheme and port.
pub open spec fn localhost_pattern() -> Seq<char> {
    r"^(https?:\/\/)?localhost(:(6553[0-5]|655[0-2][0-9]|65[0-4][0-9]{2}|6[0-4][0-9]{3}|[1-5][0-9]{4}|[1-9][0-9]{1,3}|[0-9]))?$"@
}

/// A browser-internal `about:` page.
pub open spec fn about_pattern() -> Seq<char> {
    r"^about:[A-Za-z]+$"@
}

/// Whether `input` is a page address: a host name, an IPv4 address,
/// `localhost` or an `about:` page. An error where a pattern is rejected.
pub fn is_valid_page(input: &str) -> (r: Result<bool, regex::Error>)
    ensures
        ({
            let d = regex_match(domain_pattern(), input@);
            let v = regex_match(ipv4_pattern(), input@);
            let l = regex_match(localhost_pattern(), input@);
            let a = regex_match(about_pattern(), input@);
            &&& (r is Ok <==> (d is Some && v is Some && l is Some && a is Some))
            &&& r is Ok ==> r->Ok_0 == (d->0 || v->0 || l->0 || a->0)
        }),
{
    let d = pattern_matches(
        r"^(https?:\/\/)?(([a-z0-9]+(-[a-z0-9]+)*\.)+[a-z]{2,})(\/\S+)?$",
        input,
    )?;
    let v = pattern_matches(
        r"^(https?:\/\/)?(((25[0-5]|2[0-4][0-9]|[01]?[0-9][0-9]?)\.){3}(?:25[0-5]|2[0-4][0-9]|[01]?[0-9][0-9]?))(\/\S+)?$",
        input,
    )?;
    let l = pattern_matches(
        r"^(https?:\/\/)?localhost(:(6553[0-5]|655[0-2][0-9]|65[0-4][0-9]{2}|6[0-4][0-9]{3}|[1-5][0-9]{4}|[1-9][0-9]{1,3}|[0-9]))?$",
        input,
    )?;
    let a = pattern_matches(r"^about:[A-Za-z]+$", input)?;
    Ok(d || v || l || a)
}

} // verus!
