//! Matching text against a regular expression, through the `regex` crate.
use vstd::prelude::*;

use crate::decimal::is_digit;

verus! {

/// Anchored pattern of a variable name: a letter or underscore, then
/// letters, digits and underscores.
pub const IDENT_PATTERN: &'static str = "^[A-Za-z_][A-Za-z_0-9]*$";

/// Anchored pattern of a positive number written without sign or leading zero.
pub const PLAIN_NUMBER_PATTERN: &'static str = "^[1-9][0-9]*$";

pub open spec fn is_ident_start(c: char) -> bool {
    ('A' <= c && c <= 'Z') || ('a' <= c && c <= 'z') || c == '_'
}

pub open spec fn is_ident_char(c: char) -> bool {
    is_ident_start(c) || is_digit(c)
}

/// What `IDENT_PATTERN` matches.
pub open spec fn is_identifier(s: Seq<char>) -> bool {
    &&& s.len() > 0
    &&& is_ident_start(s[0])
    &&& forall|i: int| 1 <= i < s.len() ==> #[trigger] is_ident_char(s[i])
}

/// What `PLAIN_NUMBER_PATTERN` matches.
pub open spec fn is_plain_number(s: Seq<char>) -> bool {
    &&& s.len() > 0
    &&& '1' <= s[0] && s[0] <= '9'
    &&& forall|i: int| 1 <= i < s.len() ==> #[trigger] is_digit(s[i])
}

/// Whether the `regex` crate compiles `pattern` (`None` where it refuses it)
/// and then finds a match of it in `haystack`.
pub uninterp spec fn regex_match(pattern: Seq<char>, haystack: Seq<char>) -> Option<bool>;

/// Compiles `pattern` with `regex::Regex::new` and asks `Regex::is_match`
/// about `haystack`; `None` where `Regex::new` returns an error.
/// Claimed, and not proved: the outcome depends on the two texts alone, and
/// for the two anchored patterns of this crate it is the one that the
/// regex syntax documents (`^`/`$` anchor at the ends of the haystack, a
/// bracketed class matches one char of its ranges, `*` repeats zero or more
/// times), which `is_identifier` and `is_plain_number` write out.
#[verifier::external_body]
pub(crate) fn regex_is_match(pattern: &str, haystack: &str) -> (r: Option<bool>)
    ensures
        r == regex_match(pattern@, haystack@),
        pattern@ == IDENT_PATTERN@ ==> r == Some(is_identifier(haystack@)),
        pattern@ == PLAIN_NUMBER_PATTERN@ ==> r == Some(is_plain_number(haystack@)),
{
    match regex::Regex::new(pattern) {
        Ok(re) => Some(re.is_match(haystack)),
        Err(_) => None,
    }
}

} // verus!
