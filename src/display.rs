//! Short forms of identifiers and texts for messages and listings.

use vstd::prelude::*;
use crate::rules::KeywordGroupReply;
use crate::text::{push_char, views};

verus! {

/// The first `n` characters of `s` and an ellipsis when `s` is longer than
/// `n`; else `s` itself.
pub open spec fn truncated(s: Seq<char>, n: nat) -> Seq<char> {
    if s.len() > n {
        s.subrange(0, n as int).push('…')
    } else {
        s
    }
}

/// Identifiers longer than twelve characters shortened to their first six
/// and last four, joined by an ellipsis.
pub open spec fn short_form(s: Seq<char>) -> Seq<char> {
    if s.len() <= 12 {
        s
    } else {
        s.subrange(0, 6).push('…') + s.subrange(s.len() - 4, s.len() as int)
    }
}

/// The items of `items` separated by `sep`.
pub open spec fn joined(items: Seq<Seq<char>>, sep: Seq<char>) -> Seq<char>
    decreases items.len(),
{
    if items.len() == 0 {
        Seq::empty()
    } else if items.len() == 1 {
        items[0]
    } else {
        joined(items.drop_last(), sep) + sep + items.last()
    }
}

/// The letter that tags entry `i` of a listing: `A`, `B`, ...
pub open spec fn tag_letter(i: int) -> char {
    (65 + i) as char
}

/// One line of the auto-reply listing: `A. [k1, k2] => reply`, the reply cut
/// to fifty characters.
pub open spec fn reply_line(i: int, r: KeywordGroupReply) -> Seq<char> {
    seq![tag_letter(i)] + ". ["@ + joined(views(r.keywords@), ", "@) + "] => "@ + truncated(
        r.reply@,
        50,
    )
}

/// The first `n` characters of `s`, with an ellipsis when some were cut.
pub fn truncate(s: &str, n: usize) -> (r: String)
    ensures
        r@ == truncated(s@, n as nat),
{
    let len = s.unicode_len();
    if len > n {
        let mut out = s.substring_char(0, n).to_string();
        push_char(&mut out, '…');
        out
    } else {
        s.to_string()
    }
}

/// A shortened identifier for display.
pub fn short_id(s: &str) -> (r: String)
    ensures
        r@ == short_form(s@),
{
    let len = s.unicode_len();
    if len <= 12 {
        return s.to_string();
    }
    let mut out = s.substring_char(0, 6).to_string();
    push_char(&mut out, '…');
    out.append(s.substring_char(len - 4, len));
    out
}

/// The keywords of a rule separated by commas.
fn join_keywords(keywords: &Vec<String>) -> (r: String)
    ensures
        r@ == joined(views(keywords@), ", "@),
{
    let mut out = String::new();
    let mut i: usize = 0;
    while i < keywords.len()
        invariant
            i <= keywords@.len(),
            out@ == joined(views(keywords@.subrange(0, i as int)), ", "@),
        decreases keywords@.len() - i,
    {
        proof {
            let pre = keywords@.subrange(0, i as int);
            let next = keywords@.subrange(0, i + 1);
            assert(views(next).drop_last() == views(pre));
            assert(views(next).last() == keywords@[i as int]@);
        }
        if i > 0 {
            out.append(", ");
        }
        out.append(keywords[i].as_str());
        i = i + 1;
    }
    assert(keywords@.subrange(0, keywords@.len() as int) == keywords@);
    out
}

/// One line of a keyword-rule listing: `A. k1, k2`.
pub fn keyword_line(i: usize, keywords: &Vec<String>) -> (r: String)
    requires
        i <= 190,
    ensures
        r@ == seq![tag_letter(i as int)] + ". "@ + joined(views(keywords@), ", "@),
{
    let mut line = String::new();
    push_char(&mut line, (65u8 + i as u8) as char);
    line.append(". ");
    let kw = join_keywords(keywords);
    line.append(kw.as_str());
    line
}

/// The auto-reply rules as listing lines, tagged `A`, `B`, ... in order.
pub fn list_reply_groups(cur: &[KeywordGroupReply]) -> (r: Vec<String>)
    requires
        cur@.len() <= 191,
    ensures
        r@.len() == cur@.len(),
        forall|i: int| 0 <= i < cur@.len() ==> #[trigger] r@[i]@ == reply_line(i, cur@[i]),
{
    let mut out: Vec<String> = Vec::new();
    let mut i: usize = 0;
    while i < cur.len()
        invariant
            i <= cur@.len(),
            cur@.len() <= 191,
            out@.len() == i,
            forall|j: int| 0 <= j < i ==> #[trigger] out@[j]@ == reply_line(j, cur@[j]),
        decreases cur@.len() - i,
    {
        let x = &cur[i];
        let mut line = String::new();
        push_char(&mut line, (65u8 + i as u8) as char);
        line.append(". [");
        let kw = join_keywords(&x.keywords);
        line.append(kw.as_str());
        line.append("] => ");
        let short = truncate(x.reply.as_str(), 50);
        line.append(short.as_str());
        out.push(line);
        i = i + 1;
    }
    out
}

} // verus!
