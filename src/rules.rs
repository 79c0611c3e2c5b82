//! Keyword rules, the ban command, and the precedence among them.

use vstd::prelude::*;
use crate::text::{
    contains, is_infix_of, is_prefix_of, lower_of, starts_with, to_lower, trim, trimmed, views,
};

verus! {

/// An auto-reply rule: when one of `keywords` matches, `reply` is sent.
#[derive(Clone, Debug, PartialEq, Eq)]
pub struct KeywordGroupReply {
    pub keywords: Vec<String>,
    pub reply: String,
}

/// A warn rule: a match escalates through the warn tracker.
#[derive(Clone, Debug, PartialEq, Eq)]
pub struct KeywordGroupWarn {
    pub keywords: Vec<String>,
}

/// A ban rule: a match removes the sender at once.
#[derive(Clone, Debug, PartialEq, Eq)]
pub struct KeywordGroupBan {
    pub keywords: Vec<String>,
}

/// The command token that names this moderator explicitly.
pub const BAN_MENTION: &'static str = "/ban@magicbot";

/// The leading token of a ban command.
pub const BAN_PREFIX: &'static str = "/ban";

/// One keyword hits a message when, trimmed and lower-cased, it is non-empty
/// and occurs in the lower-cased message.
pub open spec fn keyword_hits(keyword: Seq<char>, text: Seq<char>) -> bool {
    let k = lower_of(trimmed(keyword));
    k.len() > 0 && is_infix_of(k, lower_of(text))
}

/// A keyword list matches a message when one of its keywords hits it.
pub open spec fn keywords_hit(keywords: Seq<Seq<char>>, text: Seq<char>) -> bool {
    exists|i: int| 0 <= i < keywords.len() && keyword_hits(#[trigger] keywords[i], text)
}

/// Some warn rule matches the message.
pub open spec fn warn_rules_hit(rules: Seq<KeywordGroupWarn>, text: Seq<char>) -> bool {
    exists|i: int| 0 <= i < rules.len() && keywords_hit(views(#[trigger] rules[i].keywords@), text)
}

/// Some ban rule matches the message.
pub open spec fn ban_rules_hit(rules: Seq<KeywordGroupBan>, text: Seq<char>) -> bool {
    exists|i: int| 0 <= i < rules.len() && keywords_hit(views(#[trigger] rules[i].keywords@), text)
}

/// Auto-reply rule `i` matches and none before it does.
pub open spec fn first_reply_at(rules: Seq<KeywordGroupReply>, text: Seq<char>, i: int) -> bool {
    &&& 0 <= i < rules.len()
    &&& keywords_hit(views(rules[i].keywords@), text)
    &&& forall|j: int| 0 <= j < i ==> !keywords_hit(views(#[trigger] rules[j].keywords@), text)
}

/// The reply of the first auto-reply rule that matches, if any.
pub open spec fn auto_reply_for(rules: Seq<KeywordGroupReply>, text: Seq<char>) -> Option<Seq<char>> {
    if exists|i: int| first_reply_at(rules, text, i) {
        let i = choose|i: int| first_reply_at(rules, text, i);
        Some(rules[i].reply@)
    } else {
        None
    }
}

/// A message is a ban command when, trimmed, it starts with `/ban` or names
/// this moderator with `/ban@magicbot`.
pub open spec fn is_ban_command_text(s: Seq<char>) -> bool {
    is_prefix_of(BAN_PREFIX@, trimmed(s)) || is_infix_of(BAN_MENTION@, trimmed(s))
}

/// An empty keyword list matches no message.
pub proof fn lemma_empty_keywords_never_match(text: Seq<char>)
    ensures
        !keywords_hit(Seq::empty(), text),
{
}

/// Does one of `keywords` hit `text`?
pub fn keywords_match(keywords: &[String], text: &str) -> (r: bool)
    ensures
        r == keywords_hit(views(keywords@), text@),
{
    let lower = to_lower(text);
    let mut i: usize = 0;
    while i < keywords.len()
        invariant
            i <= keywords@.len(),
            lower@ == lower_of(text@),
            forall|j: int| 0 <= j < i ==> !keyword_hits(#[trigger] views(keywords@)[j], text@),
        decreases keywords@.len() - i,
    {
        let k = to_lower(trim(keywords[i].as_str()));
        if !k.as_str().is_empty() && contains(lower.as_str(), k.as_str()) {
            assert(keyword_hits(views(keywords@)[i as int], text@));
            return true;
        }
        i = i + 1;
    }
    false
}

/// Does some warn rule match `text`?
pub fn hit_any_rule(rules: &[KeywordGroupWarn], text: &str) -> (r: bool)
    ensures
        r == warn_rules_hit(rules@, text@),
{
    let mut i: usize = 0;
    while i < rules.len()
        invariant
            i <= rules@.len(),
            forall|j: int| 0 <= j < i ==> !keywords_hit(views(#[trigger] rules@[j].keywords@), text@),
        decreases rules@.len() - i,
    {
        if keywords_match(rules[i].keywords.as_slice(), text) {
            return true;
        }
        i = i + 1;
    }
    false
}

/// Does some ban rule match `text`?
pub fn hit_any_rule_ban(rules: &[KeywordGroupBan], text: &str) -> (r: bool)
    ensures
        r == ban_rules_hit(rules@, text@),
{
    let mut i: usize = 0;
    while i < rules.len()
        invariant
            i <= rules@.len(),
            forall|j: int| 0 <= j < i ==> !keywords_hit(views(#[trigger] rules@[j].keywords@), text@),
        decreases rules@.len() - i,
    {
        if keywords_match(rules[i].keywords.as_slice(), text) {
            return true;
        }
        i = i + 1;
    }
    false
}

/// The position of the first auto-reply rule that matches `text`.
pub fn first_auto_reply(rules: &[KeywordGroupReply], text: &str) -> (r: Option<usize>)
    ensures
        match r {
            Some(i) => first_reply_at(rules@, text@, i as int) && auto_reply_for(rules@, text@)
                == Some(rules@[i as int].reply@),
            None => auto_reply_for(rules@, text@) is None,
        },
{
    let mut i: usize = 0;
    while i < rules.len()
        invariant
            i <= rules@.len(),
            forall|j: int| 0 <= j < i ==> !keywords_hit(views(#[trigger] rules@[j].keywords@), text@),
        decreases rules@.len() - i,
    {
        if keywords_match(rules[i].keywords.as_slice(), text) {
            proof { lemma_first_reply_unique(rules@, text@, i as int); }
            return Some(i);
        }
        i = i + 1;
    }
    None
}

proof fn lemma_first_reply_unique(rules: Seq<KeywordGroupReply>, text: Seq<char>, i: int)
    requires
        first_reply_at(rules, text, i),
    ensures
        auto_reply_for(rules, text) == Some(rules[i].reply@),
{
    let k = choose|k: int| first_reply_at(rules, text, k);
    if k < i {
        assert(!keywords_hit(views(rules[k].keywords@), text));
    } else if i < k {
        assert(!keywords_hit(views(rules[i].keywords@), text));
    }
}

/// The keywords as typed, trimmed, blank ones dropped, in order.
pub open spec fn cleaned(raw: Seq<Seq<char>>) -> Seq<Seq<char>>
    decreases raw.len(),
{
    if raw.len() == 0 {
        Seq::empty()
    } else if trimmed(raw.last()).len() > 0 {
        cleaned(raw.drop_last()).push(trimmed(raw.last()))
    } else {
        cleaned(raw.drop_last())
    }
}

/// A keyword list as an operator typed it, trimmed, with blank entries
/// dropped.
pub fn clean_keywords(raw: &Vec<String>) -> (r: Vec<String>)
    ensures
        views(r@) == cleaned(views(raw@)),
{
    let mut out: Vec<String> = Vec::new();
    let mut i: usize = 0;
    while i < raw.len()
        invariant
            i <= raw@.len(),
            views(out@) == cleaned(views(raw@.subrange(0, i as int))),
        decreases raw@.len() - i,
    {
        proof {
            let next = raw@.subrange(0, i + 1);
            assert(views(next).drop_last() == views(raw@.subrange(0, i as int)));
            assert(views(next).last() == raw@[i as int]@);
        }
        let t = trim(raw[i].as_str());
        if !t.is_empty() {
            out.push(t.to_string());
            proof {
                assert(views(out@) == views(out@).drop_last().push(trimmed(raw@[i as int]@)));
            }
        }
        i = i + 1;
    }
    assert(raw@.subrange(0, raw@.len() as int) == raw@);
    out
}

/// Is the message a ban command?
pub fn is_ban_command(s: &str) -> (r: bool)
    ensures
        r == is_ban_command_text(s@),
{
    let t = trim(s);
    starts_with(t, BAN_PREFIX) || contains(t, BAN_MENTION)
}

} // verus!
