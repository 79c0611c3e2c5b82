//! The event dispatcher's decisions: what to do for a membership update or
//! a message in a watched group, and for a warning or a removal once the
//! gateway has answered.

use vstd::prelude::*;
use crate::config::{apply_takeover_permissions, takeover_for, GroupConfig, PermissionUpdate};
use crate::display::{short_form, short_id};
use crate::gateway::{ContactRecord, GroupFull};
use crate::names::NameMap;
use crate::rules::{
    auto_reply_for, ban_rules_hit, first_auto_reply, hit_any_rule, hit_any_rule_ban,
    is_ban_command, is_ban_command_text, warn_rules_hit,
};
use crate::runtime::{
    contains_id, copy_ids, listed_group, listing_applied, refresh_group_state, same_rules,
    snapshot_before, GroupRuntime, RefreshError,
};
use crate::target::{ban_target, opt_view, resolve_ban_target};
use crate::text::{replace_all, replaced, trim, trimmed, views};
use crate::warn::{record_warning, warn_next, warn_step, WarnMark, WarnOutcome};

verus! {

/// Sent when a member who is not an admin issues a ban command that only
/// admins may issue.
pub const NO_PERMISSION_REPLY: &'static str = "无权限：仅管理员可执行 /ban。";

/// Sent when the moderator lacks the admin rights it needs to act.
pub const BOT_NOT_ADMIN_REPLY: &'static str = "Bot 无管理员权限，已暂停踢人/警告。";

/// Sent when a ban command names no target.
pub const BAN_USAGE_REPLY: &'static str = "用法：回复目标消息发送 /ban@magicbot 或 /ban@magicbot <uuid/号码>。";

/// Sent after a ban command removed its target.
pub const REMOVED_REPLY: &'static str = "已移出群组。";

/// Put before the gateway's error when a ban command's removal failed.
pub const KICK_FAILED_PREFIX: &'static str = "踢人失败：";

/// Sent when repeated warnings removed a member.
pub const KICKED_FOR_WARNINGS_REPLY: &'static str = "已因多次警告移出群组。";

/// Where a welcome template takes the new member's name.
pub const WELCOME_PLACEHOLDER: &'static str = "##{@user}##";

/// The sender of a message that names none.
pub const UNKNOWN_SENDER: &'static str = "unknown";

/// The group-info type of a membership update.
pub const UPDATE_KIND: &'static str = "UPDATE";

/// A message in a watched group, with what the engine reads of it.
#[derive(Clone, Debug, PartialEq, Eq)]
pub struct IncomingMessage {
    pub message: Option<String>,
    pub quote_author: Option<String>,
    pub source_uuid: Option<String>,
    pub source_number: Option<String>,
    pub source: Option<String>,
}

/// An event in a watched group. For a membership update the caller has
/// fetched the gateway's group listing and contact list.
#[derive(Clone, Debug, PartialEq, Eq)]
pub enum GroupEvent {
    MembershipUpdate { groups: Vec<GroupFull>, contacts: Vec<ContactRecord> },
    Message(IncomingMessage),
}

/// An outbound step, carried out in order by the caller.
#[derive(Clone, Debug, PartialEq, Eq)]
pub enum Action {
    /// Persist the group's policy record.
    SaveConfig,
    /// Set the group's three permissions.
    UpdatePermissions(PermissionUpdate),
    /// Send a text to the group.
    Send(String),
    /// Remove a member; a failure is not reported.
    Remove(String),
    /// Remove a member and send the text of `removal_report` for the result.
    RemoveAndReport(String),
    /// Delete a user's warn mark.
    ClearWarnMark(String),
    /// Escalate a warning for a user through `warn_and_maybe_kick`.
    Warn(String),
    /// Store a user's warn mark.
    StoreWarnMark(String, WarnMark),
}

/// The model of an action.
pub enum ActionView {
    SaveConfig,
    UpdatePermissions(Seq<char>, Seq<char>, Seq<char>),
    Send(Seq<char>),
    Remove(Seq<char>),
    RemoveAndReport(Seq<char>),
    ClearWarnMark(Seq<char>),
    Warn(Seq<char>),
    StoreWarnMark(Seq<char>, WarnMark),
}

impl View for Action {
    type V = ActionView;

    open spec fn view(&self) -> ActionView {
        match self {
            Action::SaveConfig => ActionView::SaveConfig,
            Action::UpdatePermissions(u) => ActionView::UpdatePermissions(
                u.add_member@,
                u.send_message@,
                u.edit_details@,
            ),
            Action::Send(s) => ActionView::Send(s@),
            Action::Remove(s) => ActionView::Remove(s@),
            Action::RemoveAndReport(s) => ActionView::RemoveAndReport(s@),
            Action::ClearWarnMark(s) => ActionView::ClearWarnMark(s@),
            Action::Warn(s) => ActionView::Warn(s@),
            Action::StoreWarnMark(s, m) => ActionView::StoreWarnMark(s@, *m),
        }
    }
}

/// The models of a list of actions.
pub open spec fn actions_view(v: Seq<Action>) -> Seq<ActionView> {
    v.map_values(|a: Action| a@)
}

/// The sender of a message: its UUID, else its number, else its source,
/// else `unknown`.
pub open spec fn sender_of(m: IncomingMessage) -> Seq<char> {
    match m.source_uuid {
        Some(u) => u@,
        None => match m.source_number {
            Some(n) => n@,
            None => match m.source {
                Some(s) => s@,
                None => UNKNOWN_SENDER@,
            },
        },
    }
}

/// The moderator may remove and warn: it holds admin rights, or the policy
/// does not ask for them.
pub open spec fn can_enforce(cfg: GroupConfig) -> bool {
    !cfg.require_bot_admin_to_enforce || cfg.bot_has_admin
}

/// What a ban command leads to.
pub open spec fn ban_command_plan(
    rt: GroupRuntime,
    sender: Seq<char>,
    text: Seq<char>,
    quote_author: Option<Seq<char>>,
) -> Seq<ActionView> {
    if rt.cfg.only_admin_can_ban && !views(rt.admins@).contains(sender) {
        seq![ActionView::Send(NO_PERMISSION_REPLY@)]
    } else if !can_enforce(rt.cfg) {
        seq![ActionView::Send(BOT_NOT_ADMIN_REPLY@)]
    } else {
        match ban_target(quote_author, text) {
            Some(t) => seq![ActionView::RemoveAndReport(t)],
            None => seq![ActionView::Send(BAN_USAGE_REPLY@)],
        }
    }
}

/// What a non-empty, trimmed message leads to, first hit winning: a ban
/// command; then, with the policy enabled, a ban rule, a warn rule and the
/// first matching auto-reply.
pub open spec fn message_plan(
    rt: GroupRuntime,
    sender: Seq<char>,
    text: Seq<char>,
    quote_author: Option<Seq<char>>,
) -> Seq<ActionView> {
    let cfg = rt.cfg;
    let ban_hit = ban_rules_hit(cfg.ban_rules@, text);
    let warn_hit = warn_rules_hit(cfg.warn_rules@, text);
    if is_ban_command_text(text) {
        ban_command_plan(rt, sender, text, quote_author)
    } else if !cfg.enabled {
        seq![]
    } else if !can_enforce(cfg) && (warn_hit || ban_hit) {
        seq![ActionView::Send(BOT_NOT_ADMIN_REPLY@)]
    } else if ban_hit {
        seq![ActionView::Remove(sender), ActionView::ClearWarnMark(sender)]
    } else if warn_hit {
        seq![ActionView::Warn(sender)]
    } else {
        match auto_reply_for(cfg.auto_replies@, text) {
            Some(r) => seq![ActionView::Send(r)],
            None => seq![],
        }
    }
}

/// What a message leads to; an absent or blank message leads to nothing.
pub open spec fn message_actions(rt: GroupRuntime, m: IncomingMessage) -> Seq<ActionView> {
    match m.message {
        None => seq![],
        Some(s) => {
            let t = trimmed(s@);
            if t.len() == 0 {
                seq![]
            } else {
                message_plan(rt, sender_of(m), t, opt_view(m.quote_author))
            }
        },
    }
}

/// The permission update of a membership update: issued when the policy is
/// enabled, asks for admin rights to enforce, and the moderator holds them.
pub open spec fn takeover_actions(cfg: GroupConfig) -> Seq<ActionView> {
    if cfg.enabled && cfg.require_bot_admin_to_enforce {
        match takeover_for(cfg) {
            Some(p) => seq![ActionView::UpdatePermissions(p.0, p.1, p.2)],
            None => seq![],
        }
    } else {
        seq![]
    }
}

/// The members not in the snapshot, in order.
pub open spec fn added_members(members: Seq<Seq<char>>, snapshot: Seq<Seq<char>>) -> Seq<Seq<char>>
    decreases members.len(),
{
    if members.len() == 0 {
        Seq::empty()
    } else {
        let a = added_members(members.drop_last(), snapshot);
        if snapshot.contains(members.last()) {
            a
        } else {
            a.push(members.last())
        }
    }
}

/// The name a welcome uses: the known display name, else the short form of
/// the identifier.
pub open spec fn display_name(names: Map<Seq<char>, Seq<char>>, id: Seq<char>) -> Seq<char> {
    if names.contains_key(id) {
        names[id]
    } else {
        short_form(id)
    }
}

/// One welcome per new member, when a template is set.
pub open spec fn welcome_actions(
    template: Option<String>,
    added: Seq<Seq<char>>,
    names: Map<Seq<char>, Seq<char>>,
) -> Seq<ActionView> {
    match template {
        Some(t) => added.map_values(
            |id: Seq<char>| ActionView::Send(replaced(t@, WELCOME_PLACEHOLDER@, display_name(names, id))),
        ),
        None => seq![],
    }
}

/// `after` and `acts` are what a membership update with this listing makes
/// of `before`: the listing applied, the snapshot replaced by the members
/// and saved, then one welcome per member that was not in the snapshot.
pub open spec fn update_result(
    before: GroupRuntime,
    groups: Seq<GroupFull>,
    contacts: Seq<ContactRecord>,
    after: GroupRuntime,
    acts: Seq<ActionView>,
) -> bool {
    match listed_group(groups, before.cfg.group_id@) {
        None => false,
        Some(g) => {
            let members = views(after.members@);
            &&& listing_applied(after, g, before.self_id@, contacts)
            &&& same_rules(before.cfg, after.cfg)
            &&& after.cfg.group_name == before.cfg.group_name
            &&& views(after.cfg.last_members_snapshot@) == members
            &&& acts == seq![ActionView::SaveConfig] + takeover_actions(after.cfg) + seq![
                ActionView::SaveConfig,
            ] + welcome_actions(
                after.cfg.welcome_template,
                added_members(
                    members,
                    snapshot_before(views(before.cfg.last_members_snapshot@), members),
                ),
                after.member_names@,
            )
        },
    }
}

/// What a warning for `user` at time `now` leads to: past the threshold the
/// user is removed, the mark deleted and the removal announced; otherwise
/// the mark is stored and the warning sent.
pub open spec fn warn_plan(
    cfg: GroupConfig,
    user: Seq<char>,
    mark: Option<WarnMark>,
    now: i64,
) -> Seq<ActionView> {
    match warn_next(mark, now, cfg.warn_window_minutes, cfg.warn_max_count) {
        WarnOutcome::Kicked => seq![
            ActionView::Remove(user),
            ActionView::ClearWarnMark(user),
            ActionView::Send(KICKED_FOR_WARNINGS_REPLY@),
        ],
        WarnOutcome::Warned(m) => seq![
            ActionView::StoreWarnMark(user, m),
            ActionView::Send(cfg.warn_message@),
        ],
    }
}

/// The reply to a ban command's removal: success, or the failure with the
/// gateway's error.
pub open spec fn removal_text(result: Result<(), Seq<char>>) -> Seq<char> {
    match result {
        Ok(_) => REMOVED_REPLY@,
        Err(e) => KICK_FAILED_PREFIX@ + e,
    }
}

/// Does a group-info type select the membership-update path?
pub fn is_membership_update(kind: &String) -> (r: bool)
    ensures
        r == (kind@ == UPDATE_KIND@),
{
    *kind == String::from_str(UPDATE_KIND)
}

/// The identifier of a message's sender.
pub fn sender_id(m: &IncomingMessage) -> (r: String)
    ensures
        r@ == sender_of(*m),
{
    match &m.source_uuid {
        Some(u) => u.clone(),
        None => match &m.source_number {
            Some(n) => n.clone(),
            None => match &m.source {
                Some(s) => s.clone(),
                None => String::from_str(UNKNOWN_SENDER),
            },
        },
    }
}

fn no_actions() -> (r: Vec<Action>)
    ensures
        actions_view(r@) == Seq::<ActionView>::empty(),
{
    let v = Vec::new();
    assert(actions_view(v@) =~= Seq::<ActionView>::empty());
    v
}

fn one(a: Action) -> (r: Vec<Action>)
    ensures
        actions_view(r@) == seq![a@],
{
    let mut v = Vec::new();
    v.push(a);
    assert(actions_view(v@) =~= seq![a@]);
    v
}

fn send_text(s: &str) -> (r: Vec<Action>)
    ensures
        actions_view(r@) == seq![ActionView::Send(s@)],
{
    one(Action::Send(s.to_string()))
}

/// What a ban command leads to.
fn ban_command_actions(rt: &GroupRuntime, sender: &String, text: &String, quote_author: &Option<
    String,
>) -> (r: Vec<Action>)
    ensures
        actions_view(r@) == ban_command_plan(*rt, sender@, text@, opt_view(*quote_author)),
{
    if rt.cfg.only_admin_can_ban && !contains_id(&rt.admins, sender) {
        return send_text(NO_PERMISSION_REPLY);
    }
    if rt.cfg.require_bot_admin_to_enforce && !rt.cfg.bot_has_admin {
        return send_text(BOT_NOT_ADMIN_REPLY);
    }
    match resolve_ban_target(quote_author, text.as_str()) {
        Some(t) => one(Action::RemoveAndReport(t)),
        None => send_text(BAN_USAGE_REPLY),
    }
}

/// What a message leads to.
fn message_event_actions(rt: &GroupRuntime, m: &IncomingMessage) -> (r: Vec<Action>)
    ensures
        actions_view(r@) == message_actions(*rt, *m),
{
    let text = match &m.message {
        Some(s) => trim(s.as_str()).to_string(),
        None => return no_actions(),
    };
    if text.as_str().is_empty() {
        return no_actions();
    }
    let sender = sender_id(m);
    if is_ban_command(text.as_str()) {
        return ban_command_actions(rt, &sender, &text, &m.quote_author);
    }
    let cfg = &rt.cfg;
    if !cfg.enabled {
        return no_actions();
    }
    let can = !cfg.require_bot_admin_to_enforce || cfg.bot_has_admin;
    let warn_hit = hit_any_rule(cfg.warn_rules.as_slice(), text.as_str());
    let ban_hit = hit_any_rule_ban(cfg.ban_rules.as_slice(), text.as_str());
    if !can && (warn_hit || ban_hit) {
        return send_text(BOT_NOT_ADMIN_REPLY);
    }
    if ban_hit {
        let mut v = Vec::new();
        v.push(Action::Remove(sender.clone()));
        v.push(Action::ClearWarnMark(sender));
        assert(actions_view(v@) =~= seq![ActionView::Remove(sender@), ActionView::ClearWarnMark(sender@)]);
        return v;
    }
    if warn_hit {
        return one(Action::Warn(sender));
    }
    match first_auto_reply(cfg.auto_replies.as_slice(), text.as_str()) {
        Some(i) => send_text(cfg.auto_replies[i].reply.as_str()),
        None => no_actions(),
    }
}

/// The members of `members` that are not in `snapshot`, in order.
fn added_ids(members: &Vec<String>, snapshot: &Vec<String>) -> (r: Vec<String>)
    ensures
        views(r@) == added_members(views(members@), views(snapshot@)),
{
    let mut out: Vec<String> = Vec::new();
    let mut i: usize = 0;
    while i < members.len()
        invariant
            i <= members@.len(),
            views(out@) == added_members(views(members@.subrange(0, i as int)), views(snapshot@)),
        decreases members@.len() - i,
    {
        proof {
            let next = members@.subrange(0, i + 1);
            assert(views(next).drop_last() == views(members@.subrange(0, i as int)));
            assert(views(next).last() == members@[i as int]@);
        }
        if !contains_id(snapshot, &members[i]) {
            out.push(members[i].clone());
            proof {
                assert(views(out@) == views(out@).drop_last().push(members@[i as int]@));
            }
        }
        i = i + 1;
    }
    assert(members@.subrange(0, members@.len() as int) == members@);
    out
}

/// Append one welcome per new member to `acts`.
fn push_welcomes(acts: &mut Vec<Action>, template: &String, added: &Vec<String>, names: &NameMap)
    ensures
        actions_view(final(acts)@) == actions_view(old(acts)@) + welcome_actions(
            Some(*template),
            views(added@),
            names@,
        ),
{
    let ghost start = actions_view(acts@);
    let mut i: usize = 0;
    while i < added.len()
        invariant
            i <= added@.len(),
            actions_view(acts@) == start + welcome_actions(
                Some(*template),
                views(added@.subrange(0, i as int)),
                names@,
            ),
        decreases added@.len() - i,
    {
        let id = &added[i];
        let name = match names.get(id) {
            Some(n) => n,
            None => short_id(id.as_str()),
        };
        proof {
            reveal_strlit("##{@user}##");
        }
        let msg = replace_all(template.as_str(), WELCOME_PLACEHOLDER, name.as_str());
        let ghost before = actions_view(acts@);
        let ghost sent = ActionView::Send(msg@);
        acts.push(Action::Send(msg));
        proof {
            assert(name@ == display_name(names@, id@));
            let prev = views(added@.subrange(0, i as int));
            let next = added@.subrange(0, i + 1);
            assert(views(next) =~= prev.push(added@[i as int]@));
            assert(actions_view(acts@) =~= before.push(sent));
            assert(welcome_actions(Some(*template), views(next), names@) =~= welcome_actions(
                Some(*template),
                prev,
                names@,
            ).push(sent));
            assert(actions_view(acts@) =~= start + welcome_actions(Some(*template), views(next), names@));
        }
        i = i + 1;
    }
    assert(added@.subrange(0, added@.len() as int) == added@);
}

/// What a membership update leads to.
fn update_event_actions(
    rt: &mut GroupRuntime,
    groups: &Vec<GroupFull>,
    contacts: &Vec<ContactRecord>,
) -> (r: Result<Vec<Action>, RefreshError>)
    ensures
        match listed_group(groups@, old(rt).cfg.group_id@) {
            None => r == Err::<Vec<Action>, RefreshError>(RefreshError::GroupNotListed) && *final(rt) == *old(rt),
            Some(_) => r is Ok && update_result(
                *old(rt),
                groups@,
                contacts@,
                *final(rt),
                actions_view(r->Ok_0@),
            ),
        },
{
    let ghost before = *rt;
    match refresh_group_state(rt, groups, contacts) {
        Ok(_) => {},
        Err(e) => return Err(e),
    }
    let mut acts: Vec<Action> = Vec::new();
    acts.push(Action::SaveConfig);
    if rt.cfg.bot_has_admin && rt.cfg.enabled && rt.cfg.require_bot_admin_to_enforce {
        match apply_takeover_permissions(&rt.cfg) {
            Some(u) => acts.push(Action::UpdatePermissions(u)),
            None => {},
        }
    }
    let added = added_ids(&rt.members, &rt.cfg.last_members_snapshot);
    rt.cfg.last_members_snapshot = copy_ids(&rt.members);
    acts.push(Action::SaveConfig);
    let ghost mid = actions_view(acts@);
    proof {
        assert(mid =~= seq![ActionView::SaveConfig] + takeover_actions(rt.cfg) + seq![
            ActionView::SaveConfig,
        ]);
    }
    match &rt.cfg.welcome_template {
        Some(t) => push_welcomes(&mut acts, t, &added, &rt.member_names),
        None => {
            assert(mid =~= mid + welcome_actions(rt.cfg.welcome_template, views(added@), rt.member_names@));
        },
    }
    Ok(acts)
}

/// `after` and `res` are what an event makes of `before`: for a membership
/// update, the update applied, or a failure that changes nothing when the
/// listing does not hold the group; for a message, its actions, with the
/// state unchanged.
pub open spec fn handled(
    before: GroupRuntime,
    ev: GroupEvent,
    after: GroupRuntime,
    res: Result<Vec<Action>, RefreshError>,
) -> bool {
    match ev {
        GroupEvent::MembershipUpdate { groups, contacts } => match listed_group(
            groups@,
            before.cfg.group_id@,
        ) {
            None => res == Err::<Vec<Action>, RefreshError>(RefreshError::GroupNotListed) && after
                == before,
            Some(_) => res is Ok && update_result(
                before,
                groups@,
                contacts@,
                after,
                actions_view(res->Ok_0@),
            ),
        },
        GroupEvent::Message(m) => res is Ok && actions_view(res->Ok_0@) == message_actions(before, m)
            && after == before,
    }
}

/// Decide what an event in a watched group leads to. A membership update
/// refreshes the group's state from the listing it carries; it fails,
/// changing nothing, when the listing does not hold the group. A message
/// leaves the state as it is.
pub fn handle_group_event(rt: &mut GroupRuntime, ev: &GroupEvent) -> (r: Result<
    Vec<Action>,
    RefreshError,
>)
    ensures
        handled(*old(rt), *ev, *final(rt), r),
{
    match ev {
        GroupEvent::MembershipUpdate { groups, contacts } => update_event_actions(rt, groups, contacts),
        GroupEvent::Message(m) => Ok(message_event_actions(rt, m)),
    }
}

/// The steps for one warning for `user` at time `now`.
pub fn warn_actions(cfg: &GroupConfig, user: &String, mark: Option<WarnMark>, now: i64) -> (r: Vec<
    Action,
>)
    ensures
        actions_view(r@) == warn_plan(*cfg, user@, mark, now),
{
    let mut v = Vec::new();
    match warn_step(mark, now, cfg.warn_window_minutes, cfg.warn_max_count) {
        WarnOutcome::Kicked => {
            v.push(Action::Remove(user.clone()));
            v.push(Action::ClearWarnMark(user.clone()));
            v.push(Action::Send(String::from_str(KICKED_FOR_WARNINGS_REPLY)));
        },
        WarnOutcome::Warned(m) => {
            v.push(Action::StoreWarnMark(user.clone(), m));
            v.push(Action::Send(cfg.warn_message.clone()));
        },
    }
    assert(actions_view(v@) =~= warn_plan(*cfg, user@, mark, now));
    v
}

/// The steps for one warning for `user` now, given the user's stored mark.
pub fn warn_and_maybe_kick(cfg: &GroupConfig, user: &String, mark: Option<WarnMark>) -> (r: Vec<
    Action,
>)
    ensures
        exists|now: i64| actions_view(r@) == warn_plan(*cfg, user@, mark, now),
{
    let (now, _) = record_warning(mark, cfg.warn_window_minutes, cfg.warn_max_count);
    warn_actions(cfg, user, mark, now)
}

/// The reply to a ban command once the gateway has answered the removal.
pub fn removal_report(result: &Result<(), String>) -> (r: String)
    ensures
        r@ == removal_text(
            match result {
                Ok(_) => Ok(()),
                Err(e) => Err(e@),
            },
        ),
{
    match result {
        Ok(_) => String::from_str(REMOVED_REPLY),
        Err(e) => String::from_str(KICK_FAILED_PREFIX).concat(e.as_str()),
    }
}

/// Every member of `members` is in `snapshot`: none is added.
proof fn lemma_nobody_added(members: Seq<Seq<char>>, snapshot: Seq<Seq<char>>)
    requires
        forall|i: int| 0 <= i < members.len() ==> snapshot.contains(#[trigger] members[i]),
    ensures
        added_members(members, snapshot) == Seq::<Seq<char>>::empty(),
    decreases members.len(),
{
    if members.len() > 0 {
        let rest = members.drop_last();
        assert forall|i: int| 0 <= i < rest.len() implies snapshot.contains(#[trigger] rest[i]) by {
            assert(rest[i] == members[i]);
        }
        lemma_nobody_added(rest, snapshot);
        assert(snapshot.contains(members[members.len() - 1]));
    }
}

/// Replaying a membership update welcomes nobody twice: when the same
/// listing is applied a second time, the stored snapshot already holds
/// every member, so the second pass sends no message at all.
pub proof fn lemma_replayed_update_sends_nothing(
    rt0: GroupRuntime,
    rt1: GroupRuntime,
    rt2: GroupRuntime,
    groups: Seq<GroupFull>,
    contacts: Seq<ContactRecord>,
    first: Seq<ActionView>,
    second: Seq<ActionView>,
)
    requires
        update_result(rt0, groups, contacts, rt1, first),
        update_result(rt1, groups, contacts, rt2, second),
    ensures
        forall|i: int| 0 <= i < second.len() ==> !(#[trigger] second[i] is Send),
{
    let members = views(rt2.members@);
    let snap = snapshot_before(views(rt1.cfg.last_members_snapshot@), members);
    assert(views(rt1.members@) == members);
    assert forall|i: int| 0 <= i < members.len() implies snap.contains(#[trigger] members[i]) by {
        assert(snap[i] == members[i]);
    }
    lemma_nobody_added(members, snap);
    let w = welcome_actions(rt2.cfg.welcome_template, added_members(members, snap), rt2.member_names@);
    assert(w =~= Seq::<ActionView>::empty());
    let t = takeover_actions(rt2.cfg);
    assert forall|i: int| 0 <= i < second.len() implies !(#[trigger] second[i] is Send) by {
        assert(second == seq![ActionView::SaveConfig] + t + seq![ActionView::SaveConfig] + w);
        if 1 <= i < 1 + t.len() {
            assert(second[i] == t[i - 1]);
        }
    }
}

/// Takeover is a single update carrying the three desired permissions when
/// the moderator holds admin rights (and the policy is enabled and asks for
/// them), and nothing at all when it does not hold them; the same policy
/// always asks for the same update.
pub proof fn lemma_takeover_once_or_never(cfg: GroupConfig)
    ensures
        !cfg.bot_has_admin ==> takeover_for(cfg) is None && takeover_actions(cfg) == Seq::<
            ActionView,
        >::empty(),
        cfg.bot_has_admin ==> takeover_for(cfg) == Some(
            (
                cfg.desired_permission_add_member@,
                cfg.desired_permission_send_message@,
                cfg.desired_permission_edit_details@,
            ),
        ),
        cfg.bot_has_admin && cfg.enabled && cfg.require_bot_admin_to_enforce ==> takeover_actions(cfg)
            == seq![
            ActionView::UpdatePermissions(
                cfg.desired_permission_add_member@,
                cfg.desired_permission_send_message@,
                cfg.desired_permission_edit_details@,
            ),
        ],
{
}

/// A ban rule outranks the auto-replies: a message that is not a ban
/// command and that matches both a ban rule and an auto-reply rule, in an
/// enabled group where the moderator may enforce, removes the sender and
/// clears the sender's warnings, and sends no reply.
pub proof fn lemma_ban_rule_beats_auto_reply(
    rt: GroupRuntime,
    sender: Seq<char>,
    text: Seq<char>,
    quote_author: Option<Seq<char>>,
)
    requires
        !is_ban_command_text(text),
        rt.cfg.enabled,
        can_enforce(rt.cfg),
        ban_rules_hit(rt.cfg.ban_rules@, text),
        auto_reply_for(rt.cfg.auto_replies@, text) is Some,
    ensures
        message_plan(rt, sender, text, quote_author) == seq![
            ActionView::Remove(sender),
            ActionView::ClearWarnMark(sender),
        ],
{
}

/// The quoted author outranks a target named in the text: an authorised
/// ban command that quotes a message by a non-blank author removes that
/// author, whatever identifier the text holds.
pub proof fn lemma_quoted_author_is_target(
    rt: GroupRuntime,
    sender: Seq<char>,
    text: Seq<char>,
    author: Seq<char>,
)
    requires
        is_ban_command_text(text),
        !rt.cfg.only_admin_can_ban || views(rt.admins@).contains(sender),
        can_enforce(rt.cfg),
        trimmed(author).len() > 0,
    ensures
        ban_target(Some(author), text) == Some(author),
        message_plan(rt, sender, text, Some(author)) == seq![ActionView::RemoveAndReport(author)],
{
}

/// A ban command from a member who is not an admin, where only admins may
/// ban, is refused with the no-permission reply and removes nobody, whether
/// or not the group's policy is enabled.
pub proof fn lemma_unauthorised_ban_refused(
    rt: GroupRuntime,
    sender: Seq<char>,
    text: Seq<char>,
    quote_author: Option<Seq<char>>,
)
    requires
        is_ban_command_text(text),
        rt.cfg.only_admin_can_ban,
        !views(rt.admins@).contains(sender),
    ensures
        message_plan(rt, sender, text, quote_author) == seq![ActionView::Send(NO_PERMISSION_REPLY@)],
{
}

} // verus!
