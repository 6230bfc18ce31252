//! The syntax rule an email address must meet before a claim is scored.
use vstd::prelude::*;

verus! {

/// The pattern of a well-formed address: allowed local-part characters, `@`,
/// host characters, a dot, then trailing domain characters.
pub const EMAIL_PATTERN: &'static str = r"(^[a-zA-Z0-9_.+-]+@[a-zA-Z0-9-]+\.[a-zA-Z0-9-.]+$)";

pub open spec fn is_alnum(c: char) -> bool {
    ('a' <= c && c <= 'z') || ('A' <= c && c <= 'Z') || ('0' <= c && c <= '9')
}

/// `[a-zA-Z0-9_.+-]`
pub open spec fn is_local_char(c: char) -> bool {
    is_alnum(c) || c == '_' || c == '.' || c == '+' || c == '-'
}

/// `[a-zA-Z0-9-]`
pub open spec fn is_host_char(c: char) -> bool {
    is_alnum(c) || c == '-'
}

/// `[a-zA-Z0-9-.]`
pub open spec fn is_domain_char(c: char) -> bool {
    is_alnum(c) || c == '-' || c == '.'
}

/// The whole of `s` is the text of `EMAIL_PATTERN`'s language: a non-empty
/// local part, `@` at `at`, a non-empty host, a dot at `dot`, and a non-empty
/// domain tail.
pub open spec fn email_well_formed(s: Seq<char>) -> bool {
    exists|at: int, dot: int|
        0 < at && at + 1 < dot && dot + 1 < s.len() && s[at] == '@' && s[dot] == '.' && (forall|
            i: int,
        |
            0 <= i < at ==> is_local_char(#[trigger] s[i])) && (forall|i: int|
            at < i < dot ==> is_host_char(#[trigger] s[i])) && (forall|i: int|
            dot < i < s.len() ==> is_domain_char(#[trigger] s[i]))
}

/// Relies on regex::Regex::new and regex::Regex::is_match: `EMAIL_PATTERN` is
/// a valid pattern, anchored at both ends of the text, so the text matches
/// exactly when it is of the form that `email_well_formed` describes.
#[verifier::external_body]
fn regex_is_match(pattern: &str, text: &str) -> (r: bool)
    requires
        pattern@ == EMAIL_PATTERN@,
    ensures
        r == email_well_formed(text@),
{
    match regex::Regex::new(pattern) {
        Ok(re) => re.is_match(text),
        Err(_) => false,
    }
}

/// Whether `email` meets the syntax rule.
pub fn email_is_valid(email: &str) -> (r: bool)
    ensures
        r == email_well_formed(email@),
{
    regex_is_match(EMAIL_PATTERN, email)
}

/// An address with no `@` is malformed.
pub proof fn lemma_no_at_malformed(s: Seq<char>)
    requires
        forall|i: int| 0 <= i < s.len() ==> s[i] != '@',
    ensures
        !email_well_formed(s),
{
}

/// An address that starts with `@` (an empty local part) is malformed.
pub proof fn lemma_empty_local_malformed(s: Seq<char>)
    requires
        s.len() > 0,
        s[0] == '@',
    ensures
        !email_well_formed(s),
{
    if email_well_formed(s) {
        let (at, dot) = choose|at: int, dot: int|
            0 < at && at + 1 < dot && dot + 1 < s.len() && s[at] == '@' && s[dot] == '.' && (
            forall|i: int| 0 <= i < at ==> is_local_char(#[trigger] s[i])) && (forall|i: int|
                at < i < dot ==> is_host_char(#[trigger] s[i])) && (forall|i: int|
                dot < i < s.len() ==> is_domain_char(#[trigger] s[i]));
        assert(is_local_char(s[0]));
    }
}

/// An address with no dot after its `@` (no domain dot) is malformed.
pub proof fn lemma_no_domain_dot_malformed(s: Seq<char>)
    requires
        forall|i: int, j: int| 0 <= i < j < s.len() && s[i] == '@' ==> s[j] != '.',
    ensures
        !email_well_formed(s),
{
}

} // verus!
