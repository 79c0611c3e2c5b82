//! The registry of watched groups, built at start from the gateway's
//! listing and the stored policies, and the routing of events to it.

use vstd::prelude::*;
use crate::config::GroupConfig;
use crate::engine::{handle_group_event, handled, Action, GroupEvent};
use crate::gateway::{ContactRecord, GroupFull, Identity};
use crate::runtime::{
    collect_ids, contains_id, copy_ids, names_for, runtime_from, GroupRuntime, RefreshError,
};
use crate::target::opt_view;

verus! {

/// The identifier of the first member whose number is `acc`.
pub open spec fn number_match(ms: Seq<Identity>, acc: Seq<char>) -> Option<Seq<char>>
    decreases ms.len(),
{
    if ms.len() == 0 {
        None
    } else if opt_view(ms[0].number) == Some(acc) {
        Some(ms[0].id@)
    } else {
        number_match(ms.drop_first(), acc)
    }
}

/// The moderator's own identifier: the identifier of the member whose number
/// is the account, taken from the last group that lists one, else the
/// account itself.
pub open spec fn self_id_of(acc: Seq<char>, gs: Seq<GroupFull>) -> Seq<char>
    decreases gs.len(),
{
    if gs.len() == 0 {
        acc
    } else {
        match number_match(gs.last().members@, acc) {
            Some(id) => id,
            None => self_id_of(acc, gs.drop_last()),
        }
    }
}

/// `rt` is listed group `g` loaded under stored policy `cfg`: as refreshed
/// from the listing, with the listed name filled in when none is stored.
pub open spec fn loaded(
    rt: GroupRuntime,
    g: GroupFull,
    cfg: GroupConfig,
    self_id: Seq<char>,
    contacts: Seq<ContactRecord>,
) -> bool {
    &&& runtime_from(rt, g, cfg, self_id, contacts)
    &&& rt.cfg.group_name@ == if cfg.group_name@.len() == 0 {
        g.name@
    } else {
        cfg.group_name@
    }
}

/// Group `i` has a stored policy and no later group with the same
/// identifier has one.
pub open spec fn last_stored(gs: Seq<GroupFull>, stored: Seq<Option<GroupConfig>>, i: int) -> bool {
    &&& 0 <= i < gs.len()
    &&& stored[i] is Some
    &&& forall|j: int|
        i < j < gs.len() && #[trigger] stored[j] is Some ==> gs[j].id@ != gs[i].id@
}

/// The identifier of the first member whose number is `acc`.
fn first_number_match(ms: &Vec<Identity>, acc: &String) -> (r: Option<String>)
    ensures
        opt_view(r) == number_match(ms@, acc@),
{
    let mut i: usize = 0;
    assert(ms@.subrange(0, ms@.len() as int) == ms@);
    while i < ms.len()
        invariant
            i <= ms@.len(),
            number_match(ms@, acc@) == number_match(ms@.subrange(i as int, ms@.len() as int), acc@),
        decreases ms@.len() - i,
    {
        proof {
            let rest = ms@.subrange(i as int, ms@.len() as int);
            assert(rest[0] == ms@[i as int]);
            assert(rest.drop_first() == ms@.subrange(i + 1, ms@.len() as int));
        }
        match &ms[i].number {
            Some(n) => {
                if *n == *acc {
                    return Some(ms[i].id.clone());
                }
            },
            None => {},
        }
        i = i + 1;
    }
    None
}

/// The moderator's own identifier among the listed groups.
pub fn resolve_self_id(acc: &String, full: &Vec<GroupFull>) -> (r: String)
    ensures
        r@ == self_id_of(acc@, full@),
{
    let mut self_id = acc.clone();
    let mut i: usize = 0;
    while i < full.len()
        invariant
            i <= full@.len(),
            self_id@ == self_id_of(acc@, full@.subrange(0, i as int)),
        decreases full@.len() - i,
    {
        proof {
            let next = full@.subrange(0, i + 1);
            assert(next.drop_last() == full@.subrange(0, i as int));
            assert(next.last() == full@[i as int]);
        }
        match first_number_match(&full[i].members, acc) {
            Some(id) => {
                self_id = id;
            },
            None => {},
        }
        i = i + 1;
    }
    assert(full@.subrange(0, full@.len() as int) == full@);
    self_id
}

/// The state of listed group `g` under its stored policy.
fn runtime_for(
    g: &GroupFull,
    cfg: GroupConfig,
    self_id: &String,
    contacts: &Vec<ContactRecord>,
) -> (rt: GroupRuntime)
    ensures
        loaded(rt, *g, cfg, self_id@, contacts@),
{
    let ghost stored = cfg;
    let mut cfg = cfg;
    if cfg.group_name.as_str().is_empty() {
        cfg.group_name = g.name.clone();
    }
    let admins = collect_ids(&g.admins);
    let members = collect_ids(&g.members);
    cfg.bot_has_admin = contains_id(&admins, self_id);
    let member_names = names_for(g, contacts);
    if cfg.last_members_snapshot.len() == 0 {
        cfg.last_members_snapshot = copy_ids(&members);
    }
    GroupRuntime { cfg, admins, members, member_names, self_id: self_id.clone() }
}

/// Group `j` has a stored policy and no group after it and before `i` with
/// the same identifier has one.
pub open spec fn last_stored_before(
    gs: Seq<GroupFull>,
    stored: Seq<Option<GroupConfig>>,
    j: int,
    i: int,
) -> bool {
    &&& 0 <= j < i
    &&& stored[j] is Some
    &&& forall|m: int| j < m < i && #[trigger] stored[m] is Some ==> gs[m].id@ != gs[j].id@
}

/// Build the registry of watched groups at start: every listed group with a
/// stored policy (`stored[i]` for `full[i]`), loaded with the moderator's
/// own identifier, which is also returned. Of two listed groups with one
/// identifier, the later one is kept.
pub fn load_all_groups_runtime(
    acc: &String,
    full: &Vec<GroupFull>,
    stored: Vec<Option<GroupConfig>>,
    contacts: &Vec<ContactRecord>,
) -> (r: (GroupRegistry, String))
    requires
        stored@.len() == full@.len(),
    ensures
        r.1@ == self_id_of(acc@, full@),
        forall|k: Seq<char>|
            #[trigger] r.0@.contains_key(k) <==> exists|i: int|
                0 <= i < full@.len() && stored@[i] is Some && (#[trigger] full@[i]).id@ == k,
        forall|i: int|
            #[trigger] last_stored(full@, stored@, i) ==> loaded(
                r.0@[full@[i].id@],
                full@[i],
                stored@[i]->0,
                r.1@,
                contacts@,
            ),
{
    let self_id = resolve_self_id(acc, full);
    let mut reg = GroupRegistry::new();
    let mut rest = stored;
    let ghost all = rest@;
    let n = full.len();
    let mut i: usize = 0;
    while i < n
        invariant
            n == full@.len(),
            all.len() == n,
            i <= n,
            rest@ == all.subrange(i as int, n as int),
            forall|k: Seq<char>|
                #[trigger] reg@.contains_key(k) <==> exists|j: int|
                    0 <= j < i && all[j] is Some && (#[trigger] full@[j]).id@ == k,
            forall|j: int|
                #[trigger] last_stored_before(full@, all, j, i as int) ==> loaded(
                    reg@[full@[j].id@],
                    full@[j],
                    all[j]->0,
                    self_id@,
                    contacts@,
                ),
        decreases n - i,
    {
        let ghost before = reg@;
        let entry = rest.remove(0);
        assert(entry == all[i as int]);
        assert(rest@ =~= all.subrange(i + 1, n as int));
        match entry {
            Some(cfg) => {
                let g = &full[i];
                let rt = runtime_for(g, cfg, &self_id, contacts);
                reg.insert(g.id.clone(), rt);
                proof {
                    assert forall|k: Seq<char>| #[trigger] reg@.contains_key(k) implies exists|j: int|
                        0 <= j < i + 1 && all[j] is Some && (#[trigger] full@[j]).id@ == k by {
                        if k != full@[i as int].id@ {
                            assert(before.contains_key(k));
                        }
                    }
                    assert forall|j: int| #[trigger]
                        last_stored_before(full@, all, j, i + 1) implies loaded(
                        reg@[full@[j].id@],
                        full@[j],
                        all[j]->0,
                        self_id@,
                        contacts@,
                    ) by {
                        if j < i {
                            assert(last_stored_before(full@, all, j, i as int));
                            assert(full@[j].id@ != full@[i as int].id@);
                        }
                    }
                }
            },
            None => {
                proof {
                    assert forall|j: int| #[trigger]
                        last_stored_before(full@, all, j, i + 1) implies loaded(
                        reg@[full@[j].id@],
                        full@[j],
                        all[j]->0,
                        self_id@,
                        contacts@,
                    ) by {
                        assert(last_stored_before(full@, all, j, i as int));
                    }
                }
            },
        }
        i = i + 1;
    }
    proof {
        assert forall|i: int| #[trigger] last_stored(full@, stored@, i) implies loaded(
            reg@[full@[i].id@],
            full@[i],
            stored@[i]->0,
            self_id@,
            contacts@,
        ) by {
            assert(last_stored_before(full@, all, i, n as int));
        }
    }
    (reg, self_id)
}

/// The position of the first entry with identifier `gid`.
fn find_entry(entries: &Vec<Watched>, gid: &String) -> (r: Option<usize>)
    ensures
        match r {
            Some(i) => i < entries@.len() && entries@[i as int].gid@ == gid@ && forall|j: int|
                0 <= j < i ==> (#[trigger] entries@[j]).gid@ != gid@,
            None => forall|j: int| 0 <= j < entries@.len() ==> (#[trigger] entries@[j]).gid@ != gid@,
        },
{
    let mut i: usize = 0;
    while i < entries.len()
        invariant
            i <= entries@.len(),
            forall|j: int| 0 <= j < i ==> (#[trigger] entries@[j]).gid@ != gid@,
        decreases entries@.len() - i,
    {
        if entries[i].gid == *gid {
            return Some(i);
        }
        i = i + 1;
    }
    None
}

/// One watched group: its identifier and its state.
struct Watched {
    gid: String,
    rt: GroupRuntime,
}

/// The watched groups by identifier.
pub struct GroupRegistry {
    entries: Vec<Watched>,
}

impl GroupRegistry {
    /// No identifier is held twice.
    #[verifier::type_invariant]
    spec fn unique_keys(self) -> bool {
        forall|i: int, j: int|
            0 <= i < j < self.entries@.len() ==> (#[trigger] self.entries@[i]).gid@
                != (#[trigger] self.entries@[j]).gid@
    }

    /// The entries, leaving the registry empty.
    fn take_entries(&mut self) -> (r: Vec<Watched>)
        ensures
            r@ == old(self).entries@,
            final(self)@ == Map::<Seq<char>, GroupRuntime>::empty(),
    {
        let mut other = GroupRegistry::new();
        core::mem::swap(self, &mut other);
        let GroupRegistry { entries } = other;
        entries
    }

    /// Entry `i` is the first with identifier `k`.
    spec fn first_at(self, k: Seq<char>, i: int) -> bool {
        &&& 0 <= i < self.entries@.len()
        &&& self.entries@[i].gid@ == k
        &&& forall|j: int| 0 <= j < i ==> (#[trigger] self.entries@[j]).gid@ != k
    }
}

impl View for GroupRegistry {
    type V = Map<Seq<char>, GroupRuntime>;

    closed spec fn view(&self) -> Map<Seq<char>, GroupRuntime> {
        Map::new(
            |k: Seq<char>| exists|i: int| self.first_at(k, i),
            |k: Seq<char>| self.entries@[choose|i: int| self.first_at(k, i)].rt,
        )
    }
}

/// Where two registries agree on the identifiers up to entry `j`, entry `j`
/// is the first with identifier `x` in one when it is in the other.
proof fn same_prefix(a: GroupRegistry, b: GroupRegistry, x: Seq<char>, j: int)
    requires
        a.first_at(x, j),
        j < b.entries@.len(),
        forall|m: int| 0 <= m <= j ==> (#[trigger] a.entries@[m]).gid@ == b.entries@[m].gid@,
    ensures
        b.first_at(x, j),
{
    assert forall|m: int| 0 <= m < j implies (#[trigger] b.entries@[m]).gid@ != x by {
        assert(a.entries@[m].gid@ != x);
    }
}

impl GroupRegistry {
    proof fn lemma_entry(&self, k: Seq<char>, i: int)
        requires
            self.first_at(k, i),
        ensures
            self@.contains_key(k),
            self@[k] == self.entries@[i].rt,
    {
        let j = choose|j: int| self.first_at(k, j);
        if j < i {
            assert(self.entries@[j].gid@ != k);
        } else if i < j {
            assert(self.entries@[i].gid@ != k);
        }
    }

    /// No group is watched.
    pub fn new() -> (r: GroupRegistry)
        ensures
            r@ == Map::<Seq<char>, GroupRuntime>::empty(),
    {
        let r = GroupRegistry { entries: Vec::new() };
        assert(r@ =~= Map::<Seq<char>, GroupRuntime>::empty());
        r
    }

    /// Is no group watched?
    pub fn is_empty(&self) -> (r: bool)
        ensures
            r == (self@ == Map::<Seq<char>, GroupRuntime>::empty()),
    {
        if self.entries.len() == 0 {
            assert(self@ =~= Map::<Seq<char>, GroupRuntime>::empty());
            true
        } else {
            let ghost k = self.entries@[0].gid@;
            proof {
                assert(self.first_at(k, 0));
                self.lemma_entry(k, 0);
                assert(!Map::<Seq<char>, GroupRuntime>::empty().contains_key(k));
            }
            false
        }
    }

    /// How many groups are watched.
    pub fn len(&self) -> (r: usize)
        ensures
            r == self@.len(),
    {
        proof {
            use_type_invariant(self);
            let ks = self.entries@.map_values(|w: Watched| w.gid@);
            assert forall|a: int, b: int|
                0 <= a < ks.len() && 0 <= b < ks.len() && a != b implies ks[a] != ks[b] by {
                if a < b {
                    assert(self.entries@[a].gid@ != self.entries@[b].gid@);
                } else {
                    assert(self.entries@[b].gid@ != self.entries@[a].gid@);
                }
            }
            ks.unique_seq_to_set();
            assert forall|x: Seq<char>| #[trigger] self@.dom().contains(x) == ks.to_set().contains(x) by {
                if self@.dom().contains(x) {
                    let j = choose|j: int| self.first_at(x, j);
                    assert(ks[j] == x);
                }
                if ks.to_set().contains(x) {
                    let j = choose|j: int| 0 <= j < ks.len() && ks[j] == x;
                    assert(self.entries@[j].gid@ == x);
                    assert(self.first_at(x, j)) by {
                        assert forall|m: int| 0 <= m < j implies (#[trigger] self.entries@[m]).gid@ != x by {
                            assert(self.entries@[m].gid@ != self.entries@[j].gid@);
                        }
                    }
                }
            }
            assert(self@.dom() =~= ks.to_set());
        }
        self.entries.len()
    }

    fn find(&self, gid: &String) -> (r: Option<usize>)
        ensures
            match r {
                Some(i) => self.first_at(gid@, i as int),
                None => !self@.contains_key(gid@) && forall|j: int|
                    0 <= j < self.entries@.len() ==> (#[trigger] self.entries@[j]).gid@ != gid@,
            },
    {
        find_entry(&self.entries, gid)
    }

    /// Is the group watched?
    pub fn contains(&self, gid: &String) -> (r: bool)
        ensures
            r == self@.contains_key(gid@),
    {
        match self.find(gid) {
            Some(i) => {
                proof {
                    self.lemma_entry(gid@, i as int);
                }
                true
            },
            None => false,
        }
    }

    /// The state held for a watched group.
    pub fn get(&self, gid: &String) -> (r: Option<&GroupRuntime>)
        ensures
            match r {
                Some(rt) => self@.contains_key(gid@) && *rt == self@[gid@],
                None => !self@.contains_key(gid@),
            },
    {
        match self.find(gid) {
            Some(i) => {
                proof {
                    self.lemma_entry(gid@, i as int);
                }
                Some(&self.entries[i].rt)
            },
            None => None,
        }
    }

    /// Watch a group with this state, replacing what was held for it.
    pub fn insert(&mut self, gid: String, rt: GroupRuntime)
        ensures
            final(self)@ == old(self)@.insert(gid@, rt),
    {
        proof {
            use_type_invariant(&*self);
        }
        let ghost before = *self;
        let ghost k = gid@;
        let found = self.find(&gid);
        let mut entries = self.take_entries();
        match found {
            Some(i) => {
                entries.set(i, Watched { gid, rt });
                proof {
                    assert forall|a: int, b: int|
                        0 <= a < b < entries@.len() implies (#[trigger] entries@[a]).gid@
                            != (#[trigger] entries@[b]).gid@ by {
                        assert(before.entries@[a].gid@ != before.entries@[b].gid@);
                    }
                }
                *self = GroupRegistry { entries };
                proof {
                    assert forall|m: int| 0 <= m < self.entries@.len() implies (
                    #[trigger] self.entries@[m]).gid@ == before.entries@[m].gid@ by {}
                    assert forall|x: Seq<char>| #[trigger]
                        self@.contains_key(x) == before@.insert(k, rt).contains_key(x) by {
                        if before@.contains_key(x) {
                            let j = choose|j: int| before.first_at(x, j);
                            assert(self.first_at(x, j));
                        }
                        if self@.contains_key(x) {
                            let j = choose|j: int| self.first_at(x, j);
                            same_prefix(*self, before, x, j);
                        }
                    }
                    assert forall|x: Seq<char>| #[trigger] self@.contains_key(x) implies self@[x]
                        == before@.insert(k, rt)[x] by {
                        let j = choose|j: int| self.first_at(x, j);
                        self.lemma_entry(x, j);
                        same_prefix(*self, before, x, j);
                        if x != k {
                            before.lemma_entry(x, j);
                        } else {
                            assert(j == i);
                        }
                    }
                    assert(self@ =~= before@.insert(k, rt));
                }
            },
            None => {
                entries.push(Watched { gid, rt });
                proof {
                    let n = before.entries@.len() as int;
                    assert forall|a: int, b: int|
                        0 <= a < b < entries@.len() implies (#[trigger] entries@[a]).gid@
                            != (#[trigger] entries@[b]).gid@ by {
                        if b < n {
                            assert(before.entries@[a].gid@ != before.entries@[b].gid@);
                        } else {
                            assert(before.entries@[a].gid@ != k);
                        }
                    }
                }
                *self = GroupRegistry { entries };
                proof {
                    let n = before.entries@.len() as int;
                    assert forall|m: int| 0 <= m < n implies (#[trigger] self.entries@[m]).gid@
                        == before.entries@[m].gid@ by {}
                    assert(self.first_at(k, n));
                    assert forall|x: Seq<char>| #[trigger]
                        self@.contains_key(x) == before@.insert(k, rt).contains_key(x) by {
                        if before@.contains_key(x) {
                            let j = choose|j: int| before.first_at(x, j);
                            assert(self.first_at(x, j));
                        }
                        if self@.contains_key(x) && x != k {
                            let j = choose|j: int| self.first_at(x, j);
                            same_prefix(*self, before, x, j);
                        }
                    }
                    assert forall|x: Seq<char>| #[trigger] self@.contains_key(x) implies self@[x]
                        == before@.insert(k, rt)[x] by {
                        let j = choose|j: int| self.first_at(x, j);
                        self.lemma_entry(x, j);
                        if x != k {
                            same_prefix(*self, before, x, j);
                            before.lemma_entry(x, j);
                        } else {
                            self.lemma_entry(k, n);
                        }
                    }
                    assert(self@ =~= before@.insert(k, rt));
                }
            },
        }
    }

    /// Route an event to a watched group. `None` when the group is not
    /// watched, leaving the registry as it is; otherwise what
    /// `handle_group_event` makes of the group's state and the event.
    pub fn dispatch(&mut self, gid: &String, ev: &GroupEvent) -> (r: Option<
        Result<Vec<Action>, RefreshError>,
    >)
        ensures
            r is None <==> !old(self)@.contains_key(gid@),
            r is None ==> final(self)@ == old(self)@,
            r is Some ==> final(self)@.dom() == old(self)@.dom(),
            r is Some ==> forall|k: Seq<char>|
                #[trigger] old(self)@.contains_key(k) && k != gid@ ==> final(self)@[k] == old(self)@[k],
            r matches Some(res) ==> handled(old(self)@[gid@], *ev, final(self)@[gid@], res),
    {
        proof {
            use_type_invariant(&*self);
        }
        let i = match self.find(gid) {
            Some(i) => i,
            None => return None,
        };
        let ghost before = *self;
        proof {
            self.lemma_entry(gid@, i as int);
        }
        let mut entries = self.take_entries();
        let res = handle_group_event(&mut entries[i].rt, ev);
        proof {
            assert forall|a: int, b: int|
                0 <= a < b < entries@.len() implies (#[trigger] entries@[a]).gid@
                    != (#[trigger] entries@[b]).gid@ by {
                assert(before.entries@[a].gid@ != before.entries@[b].gid@);
            }
        }
        *self = GroupRegistry { entries };
        proof {
            assert forall|m: int| 0 <= m < self.entries@.len() implies (
            #[trigger] self.entries@[m]).gid@ == before.entries@[m].gid@ by {}
            assert forall|x: Seq<char>| #[trigger] self@.contains_key(x) == before@.contains_key(x) by {
                if before@.contains_key(x) {
                    let j = choose|j: int| before.first_at(x, j);
                    assert(self.first_at(x, j));
                }
                if self@.contains_key(x) {
                    let j = choose|j: int| self.first_at(x, j);
                    same_prefix(*self, before, x, j);
                }
            }
            assert(self@.dom() =~= before@.dom());
            self.lemma_entry(gid@, i as int);
            assert forall|x: Seq<char>| #[trigger] before@.contains_key(x) && x != gid@ implies self@[x]
                == before@[x] by {
                let j = choose|j: int| before.first_at(x, j);
                before.lemma_entry(x, j);
                assert(self.first_at(x, j));
                self.lemma_entry(x, j);
            }
        }
        Some(res)
    }
}

} // verus!
