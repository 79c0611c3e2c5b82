//! The operating system's identifier, read from the text of an os-release
//! file: the value of the first `ID=` line, trimmed and unquoted.

use vstd::prelude::*;
use crate::target::opt_view;
use crate::text::{trim, trimmed};

verus! {

/// Position `i` begins a line.
pub open spec fn line_start(s: Seq<char>, i: int) -> bool {
    i == 0 || (0 < i <= s.len() && s[i - 1] == '\n')
}

/// A line that begins with `ID=` begins at `i`.
pub open spec fn id_line_at(s: Seq<char>, i: int) -> bool {
    line_start(s, i) && 0 <= i && i + 3 <= s.len() && s[i] == 'I' && s[i + 1] == 'D' && s[i + 2]
        == '='
}

/// Where the line that holds position `j` ends: the next newline, or the
/// end of the text.
pub open spec fn line_end(s: Seq<char>, j: int) -> int
    decreases s.len() - j,
{
    if j >= s.len() || s[j] == '\n' {
        j
    } else {
        line_end(s, j + 1)
    }
}

/// The first position from `a` on that does not hold a double quote.
pub open spec fn quotes_from(t: Seq<char>, a: int) -> int
    decreases t.len() - a,
{
    if 0 <= a < t.len() && t[a] == '"' {
        quotes_from(t, a + 1)
    } else {
        a
    }
}

/// Going back from `b`, the first end, not before `a`, that does not follow
/// a double quote.
pub open spec fn quotes_back(t: Seq<char>, a: int, b: int) -> int
    decreases b,
{
    if b > a && 0 < b <= t.len() && t[b - 1] == '"' {
        quotes_back(t, a, b - 1)
    } else {
        b
    }
}

/// `t` without its leading and trailing double quotes.
pub open spec fn unquoted(t: Seq<char>) -> Seq<char> {
    let a = quotes_from(t, 0);
    t.subrange(a, quotes_back(t, a, t.len() as int))
}

/// The identifier that an os-release text gives: the rest of its first line
/// that begins with `ID=`, trimmed and unquoted.
pub open spec fn os_id_of(s: Seq<char>) -> Option<Seq<char>> {
    if exists|i: int| id_line_at(s, i) && forall|k: int| 0 <= k < i ==> !id_line_at(s, k) {
        let i = choose|i: int| id_line_at(s, i) && forall|k: int| 0 <= k < i ==> !id_line_at(s, k);
        Some(unquoted(trimmed(s.subrange(i + 3, line_end(s, i + 3)))))
    } else {
        None
    }
}

fn unquote(t: &str) -> (r: String)
    ensures
        r@ == unquoted(t@),
{
    let m = t.unicode_len();
    let mut a: usize = 0;
    while a < m && t.get_char(a) == '"'
        invariant
            m == t@.len(),
            a <= m,
            quotes_from(t@, 0) == quotes_from(t@, a as int),
        decreases m - a,
    {
        a = a + 1;
    }
    let mut b: usize = m;
    while b > a && t.get_char(b - 1) == '"'
        invariant
            m == t@.len(),
            a <= b <= m,
            a == quotes_from(t@, 0),
            quotes_back(t@, a as int, m as int) == quotes_back(t@, a as int, b as int),
        decreases b,
    {
        b = b - 1;
    }
    t.substring_char(a, b).to_string()
}

/// The operating system's identifier in an os-release text, if it names one.
pub fn os_id_from_release(text: &str) -> (r: Option<String>)
    ensures
        opt_view(r) == os_id_of(text@),
{
    let n = text.unicode_len();
    let mut i: usize = 0;
    let mut at_start = true;
    while i < n
        invariant
            n == text@.len(),
            i <= n,
            at_start == line_start(text@, i as int),
            forall|k: int| 0 <= k < i ==> !id_line_at(text@, k),
        decreases n - i,
    {
        if at_start && n - i >= 3 && text.get_char(i) == 'I' && text.get_char(i + 1) == 'D'
            && text.get_char(i + 2) == '=' {
            let mut j: usize = i + 3;
            while j < n && text.get_char(j) != '\n'
                invariant
                    n == text@.len(),
                    i + 3 <= j <= n,
                    line_end(text@, i + 3) == line_end(text@, j as int),
                decreases n - j,
            {
                j = j + 1;
            }
            let v = unquote(trim(text.substring_char(i + 3, j)));
            proof {
                let s = text@;
                assert(id_line_at(s, i as int));
                let c = choose|c: int| id_line_at(s, c) && forall|k: int| 0 <= k < c ==> !id_line_at(s, k);
                if c < i {
                } else if c > i {
                    assert(!id_line_at(s, i as int));
                }
            }
            return Some(v);
        }
        at_start = text.get_char(i) == '\n';
        i = i + 1;
    }
    proof {
        let s = text@;
        assert forall|c: int| id_line_at(s, c) implies exists|k: int| 0 <= k < c && id_line_at(s, k) by {
            assert(c < n);
        }
    }
    None
}

} // verus!
