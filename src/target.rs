//! Who a ban command is aimed at: the quoted author, else a UUID-shaped or
//! phone-number-shaped token in the command text.

use vstd::prelude::*;
use crate::text::{trim, trimmed};

verus! {

/// A lower-case hexadecimal digit.
pub open spec fn is_lower_hex(c: char) -> bool {
    ('0' <= c && c <= '9') || ('a' <= c && c <= 'f')
}

/// A hyphenated lower-case UUID (8-4-4-4-12 hex digits) starts at `i`.
pub open spec fn uuid_at(s: Seq<char>, i: int) -> bool {
    &&& 0 <= i
    &&& i + 36 <= s.len()
    &&& forall|j: int|
        0 <= j < 36 ==> if j == 8 || j == 13 || j == 18 || j == 23 {
            #[trigger] s[i + j] == '-'
        } else {
            is_lower_hex(s[i + j])
        }
}

/// `i` is the leftmost start of a UUID in `s`.
pub open spec fn first_uuid_at(s: Seq<char>, i: int) -> bool {
    uuid_at(s, i) && forall|j: int| 0 <= j < i ==> !#[trigger] uuid_at(s, j)
}

/// The leftmost UUID in `s`, if any.
pub open spec fn uuid_token(s: Seq<char>) -> Option<Seq<char>> {
    if exists|i: int| first_uuid_at(s, i) {
        let i = choose|i: int| first_uuid_at(s, i);
        Some(s.subrange(i, i + 36))
    } else {
        None
    }
}

/// A character of the regex class `\d` (Unicode general category `Nd`).
pub uninterp spec fn regex_digit(c: char) -> bool;

/// How many `\d` characters follow one another from position `i` of `s`.
pub open spec fn digit_run(s: Seq<char>, i: int) -> nat
    decreases s.len() - i,
{
    if 0 <= i < s.len() && regex_digit(s[i]) {
        1 + digit_run(s, i + 1)
    } else {
        0
    }
}

/// A `+` followed by at least six digits starts at `i`.
pub open spec fn phone_at(s: Seq<char>, i: int) -> bool {
    0 <= i < s.len() && s[i] == '+' && digit_run(s, i + 1) >= 6
}

/// `i` is the leftmost start of a phone number in `s`.
pub open spec fn first_phone_at(s: Seq<char>, i: int) -> bool {
    phone_at(s, i) && forall|j: int| 0 <= j < i ==> !#[trigger] phone_at(s, j)
}

/// The leftmost phone number in `s`: a `+` and as many following digits as
/// there are, up to twenty.
pub open spec fn phone_token(s: Seq<char>) -> Option<Seq<char>> {
    if exists|i: int| first_phone_at(s, i) {
        let i = choose|i: int| first_phone_at(s, i);
        let n = if digit_run(s, i + 1) > 20 { 20 } else { digit_run(s, i + 1) as int };
        Some(s.subrange(i, i + 1 + n))
    } else {
        None
    }
}

/// The view of an optional string.
pub open spec fn opt_view(o: Option<String>) -> Option<Seq<char>> {
    match o {
        Some(s) => Some(s@),
        None => None,
    }
}

/// The target named in a command text: its UUID, else its phone number.
pub open spec fn text_target(s: Seq<char>) -> Option<Seq<char>> {
    if uuid_token(s) is Some {
        uuid_token(s)
    } else {
        phone_token(s)
    }
}

/// The target of a ban command: the quoted author when there is one that is
/// not blank, else the target named in the text.
pub open spec fn ban_target(quote_author: Option<Seq<char>>, text: Seq<char>) -> Option<Seq<char>> {
    match quote_author {
        Some(a) if trimmed(a).len() > 0 => Some(a),
        _ => text_target(text),
    }
}

/// A hyphenated lower-case UUID.
pub const UUID_PATTERN: &'static str = r"[0-9a-f]{8}-[0-9a-f]{4}-[0-9a-f]{4}-[0-9a-f]{4}-[0-9a-f]{12}";

/// A `+` and six to twenty digits.
pub const PHONE_PATTERN: &'static str = r"\+\d{6,20}";

/// Relies on `regex::Regex::new` and `Regex::find`: the leftmost-first match
/// of `pattern` in `s`. For `UUID_PATTERN`, a fixed-width pattern, that is
/// the match that starts first; for `PHONE_PATTERN` it is the one that
/// starts first, greedy over the digits, where a digit is `\d` (`\p{Nd}`).
/// Both patterns compile.
#[verifier::external_body]
fn regex_find(pattern: &str, s: &str) -> (r: Option<String>)
    ensures
        pattern@ == UUID_PATTERN@ ==> opt_view(r) == uuid_token(s@),
        pattern@ == PHONE_PATTERN@ ==> opt_view(r) == phone_token(s@),
        pattern@ == PHONE_PATTERN@ ==> (r matches Some(t) ==> forall|k: int|
            1 <= k < t@.len() ==> regex_digit(#[trigger] t@[k])),
{
    match regex::Regex::new(pattern) {
        Ok(re) => re.find(s).map(|m| m.as_str().to_string()),
        Err(_) => None,
    }
}

/// The target named in a ban command's text.
pub fn extract_target_from_text(s: &str) -> (r: Option<String>)
    ensures
        opt_view(r) == text_target(s@),
{
    let u = regex_find(UUID_PATTERN, s);
    if u.is_some() {
        return u;
    }
    regex_find(PHONE_PATTERN, s)
}

/// The target of a ban command, from the author of the quoted message and
/// the command text.
pub fn resolve_ban_target(quote_author: &Option<String>, text: &str) -> (r: Option<String>)
    ensures
        opt_view(r) == ban_target(opt_view(*quote_author), text@),
{
    match quote_author {
        Some(a) => {
            if !trim(a.as_str()).is_empty() {
                return Some(a.clone());
            }
        },
        None => {},
    }
    extract_target_from_text(text)
}

} // verus!
