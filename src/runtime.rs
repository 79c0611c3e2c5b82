//! The in-memory state of each watched group, rebuilt from the gateway's
//! listings and the stored policy.

use vstd::prelude::*;
use crate::config::GroupConfig;
use crate::gateway::{build_identity_name_map, contact_names, ContactRecord, GroupFull, Identity};
use crate::names::NameMap;
use crate::text::views;

verus! {

/// The live view of one group: its policy, admins, members, the names of
/// its members and the moderator's own identifier.
pub struct GroupRuntime {
    pub cfg: GroupConfig,
    pub admins: Vec<String>,
    pub members: Vec<String>,
    pub member_names: NameMap,
    pub self_id: String,
}

/// Why a group's state could not be refreshed.
#[derive(Clone, Copy, Debug, PartialEq, Eq, Structural)]
pub enum RefreshError {
    /// The gateway's listing does not hold the group.
    GroupNotListed,
}

/// `s` with repeated items dropped, first occurrences kept in order.
pub open spec fn dedup(s: Seq<Seq<char>>) -> Seq<Seq<char>>
    decreases s.len(),
{
    if s.len() == 0 {
        s
    } else {
        let d = dedup(s.drop_last());
        if d.contains(s.last()) {
            d
        } else {
            d.push(s.last())
        }
    }
}

/// The identifiers of a list of identities.
pub open spec fn ids_of(is: Seq<Identity>) -> Seq<Seq<char>> {
    is.map_values(|i: Identity| i.id@)
}

/// `m` with the members that carry a name mapped to it.
pub open spec fn with_member_names(m: Map<Seq<char>, Seq<char>>, ms: Seq<Identity>) -> Map<
    Seq<char>,
    Seq<char>,
>
    decreases ms.len(),
{
    if ms.len() == 0 {
        m
    } else {
        let m1 = with_member_names(m, ms.drop_last());
        match ms.last().name {
            Some(n) => m1.insert(ms.last().id@, n@),
            None => m1,
        }
    }
}

/// The snapshot that new members are measured against: the stored one, or
/// the current members when none is stored yet.
pub open spec fn snapshot_before(stored: Seq<Seq<char>>, members: Seq<Seq<char>>) -> Seq<Seq<char>> {
    if stored.len() == 0 {
        members
    } else {
        stored
    }
}

/// Group `i` is the first of the listing with identifier `gid`.
pub open spec fn listed_at(gs: Seq<GroupFull>, gid: Seq<char>, i: int) -> bool {
    0 <= i < gs.len() && gs[i].id@ == gid && forall|j: int| 0 <= j < i ==> (#[trigger] gs[j]).id@ != gid
}

/// The first group of the listing with identifier `gid`.
pub open spec fn listed_group(gs: Seq<GroupFull>, gid: Seq<char>) -> Option<GroupFull> {
    if exists|i: int| listed_at(gs, gid, i) {
        Some(gs[choose|i: int| listed_at(gs, gid, i)])
    } else {
        None
    }
}

/// Two policies agree on everything but the group name, the member
/// snapshot and the moderator's admin flag.
pub open spec fn same_rules(a: GroupConfig, b: GroupConfig) -> bool {
    &&& a.group_id == b.group_id
    &&& a.enabled == b.enabled
    &&& a.only_admin_can_ban == b.only_admin_can_ban
    &&& a.require_bot_admin_to_enforce == b.require_bot_admin_to_enforce
    &&& a.welcome_template == b.welcome_template
    &&& a.auto_replies == b.auto_replies
    &&& a.warn_rules == b.warn_rules
    &&& a.ban_rules == b.ban_rules
    &&& a.warn_window_minutes == b.warn_window_minutes
    &&& a.warn_max_count == b.warn_max_count
    &&& a.warn_message == b.warn_message
    &&& a.desired_permission_add_member == b.desired_permission_add_member
    &&& a.desired_permission_send_message == b.desired_permission_send_message
    &&& a.desired_permission_edit_details == b.desired_permission_edit_details
}

/// `rt` holds what listed group `g` says: admins and members from the
/// listing, the admin flag from whether `self_id` is an admin, and names
/// from the contacts and the listing.
pub open spec fn listing_applied(
    rt: GroupRuntime,
    g: GroupFull,
    self_id: Seq<char>,
    contacts: Seq<ContactRecord>,
) -> bool {
    &&& views(rt.admins@) == dedup(ids_of(g.admins@))
    &&& views(rt.members@) == dedup(ids_of(g.members@))
    &&& rt.cfg.bot_has_admin == views(rt.admins@).contains(self_id)
    &&& rt.member_names@ == with_member_names(contact_names(contacts), g.members@)
    &&& rt.self_id@ == self_id
}

/// `rt` is the state of listed group `g` under policy `cfg`: the listing
/// applied, the rules of `cfg` kept, and its member snapshot kept or, when
/// none is stored, taken from the members.
pub open spec fn runtime_from(
    rt: GroupRuntime,
    g: GroupFull,
    cfg: GroupConfig,
    self_id: Seq<char>,
    contacts: Seq<ContactRecord>,
) -> bool {
    &&& listing_applied(rt, g, self_id, contacts)
    &&& views(rt.cfg.last_members_snapshot@) == snapshot_before(
        views(cfg.last_members_snapshot@),
        views(rt.members@),
    )
    &&& same_rules(cfg, rt.cfg)
}

/// Is `x` one of `v`?
pub fn contains_id(v: &Vec<String>, x: &String) -> (r: bool)
    ensures
        r == views(v@).contains(x@),
{
    let mut i: usize = 0;
    while i < v.len()
        invariant
            i <= v@.len(),
            forall|j: int| 0 <= j < i ==> v@[j]@ != x@,
        decreases v@.len() - i,
    {
        if v[i] == *x {
            assert(views(v@)[i as int] == x@);
            return true;
        }
        i = i + 1;
    }
    proof {
        if views(v@).contains(x@) {
            let j = choose|j: int| 0 <= j < views(v@).len() && views(v@)[j] == x@;
            assert(v@[j]@ == x@);
        }
    }
    false
}

/// A copy of a list of identifiers.
pub fn copy_ids(v: &Vec<String>) -> (r: Vec<String>)
    ensures
        r@ == v@,
{
    let mut out: Vec<String> = Vec::new();
    let mut i: usize = 0;
    while i < v.len()
        invariant
            i <= v@.len(),
            out@ == v@.subrange(0, i as int),
        decreases v@.len() - i,
    {
        out.push(v[i].clone());
        proof {
            assert(out@ == v@.subrange(0, i + 1));
        }
        i = i + 1;
    }
    assert(v@.subrange(0, v@.len() as int) == v@);
    out
}

/// The identifiers of a list of identities, each once, in order of first
/// appearance.
pub fn collect_ids(is: &Vec<Identity>) -> (r: Vec<String>)
    ensures
        views(r@) == dedup(ids_of(is@)),
{
    let mut out: Vec<String> = Vec::new();
    let mut i: usize = 0;
    while i < is.len()
        invariant
            i <= is@.len(),
            views(out@) == dedup(ids_of(is@.subrange(0, i as int))),
        decreases is@.len() - i,
    {
        proof {
            let next = is@.subrange(0, i + 1);
            assert(ids_of(next).drop_last() == ids_of(is@.subrange(0, i as int)));
            assert(ids_of(next).last() == is@[i as int].id@);
        }
        if !contains_id(&out, &is[i].id) {
            out.push(is[i].id.clone());
            proof {
                assert(views(out@) == views(out@).drop_last().push(is@[i as int].id@));
            }
        }
        i = i + 1;
    }
    assert(is@.subrange(0, is@.len() as int) == is@);
    out
}

/// The names of contacts and the listed members that carry one.
pub(crate) fn names_for(g: &GroupFull, contacts: &Vec<ContactRecord>) -> (m: NameMap)
    ensures
        m@ == with_member_names(contact_names(contacts@), g.members@),
{
    let mut m = build_identity_name_map(contacts);
    let mut i: usize = 0;
    while i < g.members.len()
        invariant
            i <= g.members@.len(),
            m@ == with_member_names(contact_names(contacts@), g.members@.subrange(0, i as int)),
        decreases g.members@.len() - i,
    {
        proof {
            let next = g.members@.subrange(0, i + 1);
            assert(next.drop_last() == g.members@.subrange(0, i as int));
            assert(next.last() == g.members@[i as int]);
        }
        match &g.members[i].name {
            Some(n) => m.insert(g.members[i].id.clone(), n.clone()),
            None => {},
        }
        i = i + 1;
    }
    assert(g.members@.subrange(0, g.members@.len() as int) == g.members@);
    m
}

/// The position of the first listed group with identifier `gid`.
pub fn find_listed(gs: &Vec<GroupFull>, gid: &String) -> (r: Option<usize>)
    ensures
        match r {
            Some(i) => listed_at(gs@, gid@, i as int) && listed_group(gs@, gid@) == Some(gs@[i as int]),
            None => listed_group(gs@, gid@) is None,
        },
{
    let mut i: usize = 0;
    while i < gs.len()
        invariant
            i <= gs@.len(),
            forall|j: int| 0 <= j < i ==> (#[trigger] gs@[j]).id@ != gid@,
        decreases gs@.len() - i,
    {
        if gs[i].id == *gid {
            proof {
                assert(listed_at(gs@, gid@, i as int));
                let k = choose|k: int| listed_at(gs@, gid@, k);
                if k < i {
                    assert(gs@[k].id@ != gid@);
                } else if k > i {
                    assert(gs@[i as int].id@ != gid@);
                }
            }
            return Some(i);
        }
        i = i + 1;
    }
    None
}

/// Bring a group's state up to date with a fresh listing and contact list.
/// Fails, changing nothing, when the listing does not hold the group.
pub fn refresh_group_state(
    rt: &mut GroupRuntime,
    groups: &Vec<GroupFull>,
    contacts: &Vec<ContactRecord>,
) -> (r: Result<(), RefreshError>)
    ensures
        match listed_group(groups@, old(rt).cfg.group_id@) {
            None => r == Err::<(), RefreshError>(RefreshError::GroupNotListed) && *final(rt)
                == *old(rt),
            Some(g) => {
                &&& r is Ok
                &&& runtime_from(*final(rt), g, old(rt).cfg, old(rt).self_id@, contacts@)
                &&& final(rt).cfg.group_name == old(rt).cfg.group_name
            },
        },
{
    let found = find_listed(groups, &rt.cfg.group_id);
    let gi = match found {
        Some(i) => i,
        None => return Err(RefreshError::GroupNotListed),
    };
    let g = &groups[gi];
    let admins = collect_ids(&g.admins);
    let members = collect_ids(&g.members);
    let bot_admin = contains_id(&admins, &rt.self_id);
    rt.admins = admins;
    rt.members = members;
    rt.cfg.bot_has_admin = bot_admin;
    rt.member_names = names_for(g, contacts);
    if rt.cfg.last_members_snapshot.len() == 0 {
        rt.cfg.last_members_snapshot = copy_ids(&rt.members);
    }
    Ok(())
}

} // verus!
