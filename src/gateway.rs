//! The gateway's group and contact listings as the engine reads them, and
//! the pure rules that turn them into identities and display names.

use vstd::prelude::*;
use crate::names::NameMap;
use crate::runtime::{contains_id, dedup};
use crate::target::opt_view;
use crate::text::{is_prefix_of, starts_with, views};

verus! {

/// One member or admin entry of a group listing.
#[derive(Clone, Debug, PartialEq, Eq)]
pub struct IdentityRecord {
    pub uuid: Option<String>,
    pub number: Option<String>,
}

/// One group of a group listing.
#[derive(Clone, Debug, PartialEq, Eq)]
pub struct GroupRecord {
    pub id: Option<String>,
    pub name: Option<String>,
    pub admins: Vec<IdentityRecord>,
    pub members: Vec<IdentityRecord>,
}

/// One entry of a contact listing.
#[derive(Clone, Debug, PartialEq, Eq)]
pub struct ContactRecord {
    pub uuid: Option<String>,
    pub number: Option<String>,
    pub name: Option<String>,
}

/// A resolved identity: its identifier, phone number and display name.
#[derive(Clone, Debug, PartialEq, Eq)]
pub struct Identity {
    pub id: String,
    pub number: Option<String>,
    pub name: Option<String>,
}

/// A listed group with its resolved admins and members.
#[derive(Clone, Debug, PartialEq, Eq)]
pub struct GroupFull {
    pub id: String,
    pub name: String,
    pub admins: Vec<Identity>,
    pub members: Vec<Identity>,
}

/// A listed group by identifier and name.
#[derive(Clone, Debug, PartialEq, Eq)]
pub struct GroupSummary {
    pub id: String,
    pub name: String,
}

/// The identifier of an entry: its UUID when present, else its number, else
/// empty.
pub open spec fn record_id(r: IdentityRecord) -> Seq<char> {
    match r.uuid {
        Some(u) => u@,
        None => match r.number {
            Some(n) => n@,
            None => Seq::empty(),
        },
    }
}

/// The entries whose identifier is not empty, in order.
pub open spec fn kept_records(rs: Seq<IdentityRecord>) -> Seq<IdentityRecord>
    decreases rs.len(),
{
    if rs.len() == 0 {
        Seq::empty()
    } else if record_id(rs.last()).len() > 0 {
        kept_records(rs.drop_last()).push(rs.last())
    } else {
        kept_records(rs.drop_last())
    }
}

/// `i` is the identity resolved from entry `r`.
pub open spec fn resolved_from(i: Identity, r: IdentityRecord) -> bool {
    i.id@ == record_id(r) && opt_view(i.number) == opt_view(r.number) && i.name is None
}

/// The identities resolved from a list of entries, in order.
pub open spec fn resolves(out: Seq<Identity>, rs: Seq<IdentityRecord>) -> bool {
    let k = kept_records(rs);
    out.len() == k.len() && forall|j: int| 0 <= j < k.len() ==> resolved_from(#[trigger] out[j], k[j])
}

/// The text of an optional field, empty when absent.
pub open spec fn text_or_empty(o: Option<String>) -> Seq<char> {
    match o {
        Some(s) => s@,
        None => Seq::empty(),
    }
}

/// The groups of a listing whose identifier is not empty, in order.
pub open spec fn kept_groups(gs: Seq<GroupRecord>) -> Seq<GroupRecord>
    decreases gs.len(),
{
    if gs.len() == 0 {
        Seq::empty()
    } else if text_or_empty(gs.last().id).len() > 0 {
        kept_groups(gs.drop_last()).push(gs.last())
    } else {
        kept_groups(gs.drop_last())
    }
}

/// `g` is the listed group read from record `r`.
pub open spec fn group_from(g: GroupFull, r: GroupRecord) -> bool {
    &&& g.id@ == text_or_empty(r.id)
    &&& g.name@ == text_or_empty(r.name)
    &&& resolves(g.admins@, r.admins@)
    &&& resolves(g.members@, r.members@)
}

/// The names a contact listing gives: each named contact's UUID and number
/// both map to its name, later contacts replacing earlier ones.
pub open spec fn contact_names(cs: Seq<ContactRecord>) -> Map<Seq<char>, Seq<char>>
    decreases cs.len(),
{
    if cs.len() == 0 {
        Map::empty()
    } else {
        let m = contact_names(cs.drop_last());
        let c = cs.last();
        match c.name {
            Some(n) => {
                let m1 = match c.uuid {
                    Some(u) => m.insert(u@, n@),
                    None => m,
                };
                match c.number {
                    Some(p) => m1.insert(p@, n@),
                    None => m1,
                }
            },
            None => m,
        }
    }
}

fn copy_opt(o: &Option<String>) -> (r: Option<String>)
    ensures
        opt_view(r) == opt_view(*o),
{
    match o {
        Some(s) => Some(s.clone()),
        None => None,
    }
}

fn text_of(o: &Option<String>) -> (r: String)
    ensures
        r@ == text_or_empty(*o),
{
    match o {
        Some(s) => s.clone(),
        None => String::new(),
    }
}

/// The identifier of one entry: UUID, else number, else empty.
pub fn identity_id(r: &IdentityRecord) -> (s: String)
    ensures
        s@ == record_id(*r),
{
    match &r.uuid {
        Some(u) => u.clone(),
        None => text_of(&r.number),
    }
}

/// The identities of a member or admin list; entries without an
/// identifier are dropped.
pub fn parse_identities(rs: &Vec<IdentityRecord>) -> (out: Vec<Identity>)
    ensures
        resolves(out@, rs@),
{
    let mut out: Vec<Identity> = Vec::new();
    let mut i: usize = 0;
    while i < rs.len()
        invariant
            i <= rs@.len(),
            resolves(out@, rs@.subrange(0, i as int)),
        decreases rs@.len() - i,
    {
        proof {
            let next = rs@.subrange(0, i + 1);
            assert(next.drop_last() == rs@.subrange(0, i as int));
            assert(next.last() == rs@[i as int]);
        }
        let id = identity_id(&rs[i]);
        if !id.as_str().is_empty() {
            out.push(Identity { id, number: copy_opt(&rs[i].number), name: None });
        }
        i = i + 1;
    }
    assert(rs@.subrange(0, rs@.len() as int) == rs@);
    out
}

/// The groups of a listing with their admins and members; groups without
/// an identifier are dropped.
pub fn list_groups_full(gs: &Vec<GroupRecord>) -> (out: Vec<GroupFull>)
    ensures
        out@.len() == kept_groups(gs@).len(),
        forall|j: int| 0 <= j < out@.len() ==> group_from(#[trigger] out@[j], kept_groups(gs@)[j]),
{
    let mut out: Vec<GroupFull> = Vec::new();
    let mut i: usize = 0;
    while i < gs.len()
        invariant
            i <= gs@.len(),
            out@.len() == kept_groups(gs@.subrange(0, i as int)).len(),
            forall|j: int|
                0 <= j < out@.len() ==> group_from(
                    #[trigger] out@[j],
                    kept_groups(gs@.subrange(0, i as int))[j],
                ),
        decreases gs@.len() - i,
    {
        proof {
            let next = gs@.subrange(0, i + 1);
            assert(next.drop_last() == gs@.subrange(0, i as int));
            assert(next.last() == gs@[i as int]);
        }
        let g = &gs[i];
        let id = text_of(&g.id);
        if !id.as_str().is_empty() {
            let name = text_of(&g.name);
            let admins = parse_identities(&g.admins);
            let members = parse_identities(&g.members);
            out.push(GroupFull { id, name, admins, members });
        }
        i = i + 1;
    }
    assert(gs@.subrange(0, gs@.len() as int) == gs@);
    out
}

/// The groups of a listing by identifier and name; groups without an
/// identifier are dropped.
pub fn list_groups(gs: &Vec<GroupRecord>) -> (out: Vec<GroupSummary>)
    ensures
        out@.len() == kept_groups(gs@).len(),
        forall|j: int|
            0 <= j < out@.len() ==> (#[trigger] out@[j]).id@ == text_or_empty(kept_groups(gs@)[j].id)
                && out@[j].name@ == text_or_empty(kept_groups(gs@)[j].name),
{
    let mut out: Vec<GroupSummary> = Vec::new();
    let mut i: usize = 0;
    while i < gs.len()
        invariant
            i <= gs@.len(),
            out@.len() == kept_groups(gs@.subrange(0, i as int)).len(),
            forall|j: int|
                0 <= j < out@.len() ==> (#[trigger] out@[j]).id@ == text_or_empty(
                    kept_groups(gs@.subrange(0, i as int))[j].id,
                ) && out@[j].name@ == text_or_empty(kept_groups(gs@.subrange(0, i as int))[j].name),
        decreases gs@.len() - i,
    {
        proof {
            let next = gs@.subrange(0, i + 1);
            assert(next.drop_last() == gs@.subrange(0, i as int));
            assert(next.last() == gs@[i as int]);
        }
        let id = text_of(&gs[i].id);
        if !id.as_str().is_empty() {
            out.push(GroupSummary { id, name: text_of(&gs[i].name) });
        }
        i = i + 1;
    }
    assert(gs@.subrange(0, gs@.len() as int) == gs@);
    out
}

/// The display names that a contact listing gives.
pub fn build_identity_name_map(cs: &Vec<ContactRecord>) -> (m: NameMap)
    ensures
        m@ == contact_names(cs@),
{
    let mut m = NameMap::new();
    let mut i: usize = 0;
    while i < cs.len()
        invariant
            i <= cs@.len(),
            m@ == contact_names(cs@.subrange(0, i as int)),
        decreases cs@.len() - i,
    {
        proof {
            let next = cs@.subrange(0, i + 1);
            assert(next.drop_last() == cs@.subrange(0, i as int));
            assert(next.last() == cs@[i as int]);
        }
        let c = &cs[i];
        match &c.name {
            Some(n) => {
                match &c.uuid {
                    Some(u) => m.insert(u.clone(), n.clone()),
                    None => {},
                }
                match &c.number {
                    Some(p) => m.insert(p.clone(), n.clone()),
                    None => {},
                }
            },
            None => {},
        }
        i = i + 1;
    }
    assert(cs@.subrange(0, cs@.len() as int) == cs@);
    m
}

/// The phone numbers among the members of a listing, in order.
pub open spec fn member_numbers(gs: Seq<GroupRecord>) -> Seq<Seq<char>>
    decreases gs.len(),
{
    if gs.len() == 0 {
        Seq::empty()
    } else {
        member_numbers(gs.drop_last()) + record_numbers(gs.last().members@)
    }
}

/// The phone numbers of a list of entries that start with `+`, in order.
pub open spec fn record_numbers(rs: Seq<IdentityRecord>) -> Seq<Seq<char>>
    decreases rs.len(),
{
    if rs.len() == 0 {
        Seq::empty()
    } else {
        let rest = record_numbers(rs.drop_last());
        match rs.last().number {
            Some(n) if is_prefix_of("+"@, n@) => rest.push(n@),
            _ => rest,
        }
    }
}

/// The accounts this machine may hold: the phone numbers starting with `+`
/// of every listed group's members, each once, in order of first appearance.
pub fn local_account_candidates(gs: &Vec<GroupRecord>) -> (r: Vec<String>)
    ensures
        views(r@) == dedup(member_numbers(gs@)),
{
    let mut out: Vec<String> = Vec::new();
    let ghost seen: Seq<Seq<char>> = Seq::empty();
    let mut i: usize = 0;
    while i < gs.len()
        invariant
            i <= gs@.len(),
            seen == member_numbers(gs@.subrange(0, i as int)),
            views(out@) == dedup(seen),
        decreases gs@.len() - i,
    {
        proof {
            let next = gs@.subrange(0, i + 1);
            assert(next.drop_last() == gs@.subrange(0, i as int));
            assert(next.last() == gs@[i as int]);
        }
        let ms = &gs[i].members;
        let ghost base = seen;
        let mut j: usize = 0;
        while j < ms.len()
            invariant
                i < gs@.len(),
                ms@ == gs@[i as int].members@,
                j <= ms@.len(),
                seen == base + record_numbers(ms@.subrange(0, j as int)),
                views(out@) == dedup(seen),
            decreases ms@.len() - j,
        {
            proof {
                let next = ms@.subrange(0, j + 1);
                assert(next.drop_last() == ms@.subrange(0, j as int));
                assert(next.last() == ms@[j as int]);
            }
            match &ms[j].number {
                Some(n) => {
                    if starts_with(n.as_str(), "+") {
                        proof {
                            let old_seen = seen;
                            seen = seen.push(n@);
                            assert(seen.drop_last() == old_seen);
                            assert(base + record_numbers(ms@.subrange(0, j + 1)) =~= seen);
                        }
                        if !contains_id(&out, n) {
                            out.push(n.clone());
                            proof {
                                assert(views(out@) =~= views(out@).drop_last().push(n@));
                            }
                        }
                    } else {
                        proof {
                            assert(base + record_numbers(ms@.subrange(0, j + 1)) =~= seen);
                        }
                    }
                },
                None => {
                    proof {
                        assert(base + record_numbers(ms@.subrange(0, j + 1)) =~= seen);
                    }
                },
            }
            j = j + 1;
        }
        proof {
            assert(ms@.subrange(0, ms@.len() as int) == ms@);
        }
        i = i + 1;
    }
    assert(gs@.subrange(0, gs@.len() as int) == gs@);
    out
}

} // verus!
