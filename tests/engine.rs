use magicbot::config::{default_group_config, GroupConfig, PermissionUpdate};
use magicbot::engine::{
    handle_group_event, is_membership_update, removal_report, sender_id, warn_actions,
    warn_and_maybe_kick, Action, GroupEvent, IncomingMessage, BAN_USAGE_REPLY,
    BOT_NOT_ADMIN_REPLY, KICKED_FOR_WARNINGS_REPLY, NO_PERMISSION_REPLY, REMOVED_REPLY,
};
use magicbot::gateway::{ContactRecord, GroupFull, Identity};
use magicbot::names::NameMap;
use magicbot::rules::{KeywordGroupBan, KeywordGroupReply, KeywordGroupWarn};
use magicbot::runtime::{GroupRuntime, RefreshError};
use magicbot::warn::WarnMark;

const BOT: &str = "bot-uuid";
const ADMIN: &str = "admin-uuid";
const USER: &str = "user-uuid";

fn s(x: &str) -> String {
    x.to_string()
}

fn policy() -> GroupConfig {
    let mut c = default_group_config("g1");
    c.enabled = true;
    c.bot_has_admin = true;
    c
}

fn runtime(cfg: GroupConfig) -> GroupRuntime {
    GroupRuntime {
        cfg,
        admins: vec![s(ADMIN), s(BOT)],
        members: vec![s(ADMIN), s(BOT), s(USER)],
        member_names: NameMap::new(),
        self_id: s(BOT),
    }
}

fn message(from: &str, text: &str, quote: Option<&str>) -> GroupEvent {
    GroupEvent::Message(IncomingMessage {
        message: Some(s(text)),
        quote_author: quote.map(s),
        source_uuid: Some(s(from)),
        source_number: None,
        source: None,
    })
}

fn ident(id: &str) -> Identity {
    Identity { id: s(id), number: None, name: None }
}

fn listing(admins: &[&str], members: &[&str]) -> Vec<GroupFull> {
    vec![GroupFull {
        id: s("g1"),
        name: s("Group"),
        admins: admins.iter().map(|a| ident(a)).collect(),
        members: members.iter().map(|m| ident(m)).collect(),
    }]
}

fn sends(acts: &[Action]) -> Vec<String> {
    acts.iter()
        .filter_map(|a| match a {
            Action::Send(t) => Some(t.clone()),
            _ => None,
        })
        .collect()
}

#[test]
fn ban_rule_outranks_auto_reply() {
    let mut c = policy();
    c.ban_rules = vec![KeywordGroupBan { keywords: vec![s("casino")] }];
    c.auto_replies = vec![KeywordGroupReply { keywords: vec![s("casino")], reply: s("no ads") }];
    let mut rt = runtime(c);
    let acts = handle_group_event(&mut rt, &message(USER, "cheap CASINO here", None)).unwrap();
    assert_eq!(acts, vec![Action::Remove(s(USER)), Action::ClearWarnMark(s(USER))]);
}

#[test]
fn disabled_group_refuses_unauthorised_ban_command() {
    let mut c = policy();
    c.enabled = false;
    c.only_admin_can_ban = true;
    let mut rt = runtime(c);
    let acts = handle_group_event(&mut rt, &message(USER, "/ban@magicbot", Some("U9"))).unwrap();
    assert_eq!(acts, vec![Action::Send(s(NO_PERMISSION_REPLY))]);
}

#[test]
fn admin_ban_command_removes_quoted_author() {
    let mut c = policy();
    c.enabled = false;
    let mut rt = runtime(c);
    let text = "/ban@magicbot 22222222-2222-4222-8222-222222222222";
    let acts = handle_group_event(&mut rt, &message(ADMIN, text, Some("U1"))).unwrap();
    assert_eq!(acts, vec![Action::RemoveAndReport(s("U1"))]);
}

#[test]
fn ban_command_without_target_gets_usage() {
    let mut rt = runtime(policy());
    let acts = handle_group_event(&mut rt, &message(ADMIN, "/ban", None)).unwrap();
    assert_eq!(acts, vec![Action::Send(s(BAN_USAGE_REPLY))]);
}

#[test]
fn ban_command_without_admin_rights_is_paused() {
    let mut c = policy();
    c.bot_has_admin = false;
    let mut rt = runtime(c);
    let acts = handle_group_event(&mut rt, &message(ADMIN, "/ban +15550001111", None)).unwrap();
    assert_eq!(acts, vec![Action::Send(s(BOT_NOT_ADMIN_REPLY))]);
}

#[test]
fn rules_without_admin_rights_are_paused() {
    let mut c = policy();
    c.bot_has_admin = false;
    c.warn_rules = vec![KeywordGroupWarn { keywords: vec![s("rude")] }];
    let mut rt = runtime(c);
    let acts = handle_group_event(&mut rt, &message(USER, "so rude", None)).unwrap();
    assert_eq!(acts, vec![Action::Send(s(BOT_NOT_ADMIN_REPLY))]);
}

#[test]
fn warn_rule_asks_for_warning() {
    let mut c = policy();
    c.warn_rules = vec![KeywordGroupWarn { keywords: vec![s("rude")] }];
    c.auto_replies = vec![KeywordGroupReply { keywords: vec![s("rude")], reply: s("hi") }];
    let mut rt = runtime(c);
    let acts = handle_group_event(&mut rt, &message(USER, "  so RUDE ", None)).unwrap();
    assert_eq!(acts, vec![Action::Warn(s(USER))]);
}

#[test]
fn first_auto_reply_is_sent() {
    let mut c = policy();
    c.auto_replies = vec![
        KeywordGroupReply { keywords: vec![s("hours")], reply: s("9 to 5") },
        KeywordGroupReply { keywords: vec![s("hours")], reply: s("never") },
    ];
    let mut rt = runtime(c);
    let acts = handle_group_event(&mut rt, &message(USER, "opening hours?", None)).unwrap();
    assert_eq!(acts, vec![Action::Send(s("9 to 5"))]);
}

#[test]
fn disabled_group_ignores_rules() {
    let mut c = policy();
    c.enabled = false;
    c.ban_rules = vec![KeywordGroupBan { keywords: vec![s("casino")] }];
    let mut rt = runtime(c);
    let acts = handle_group_event(&mut rt, &message(USER, "casino", None)).unwrap();
    assert!(acts.is_empty());
}

#[test]
fn blank_or_missing_message_is_ignored() {
    let mut rt = runtime(policy());
    assert!(handle_group_event(&mut rt, &message(USER, "   ", None)).unwrap().is_empty());
    let ev = GroupEvent::Message(IncomingMessage {
        message: None,
        quote_author: None,
        source_uuid: None,
        source_number: None,
        source: None,
    });
    assert!(handle_group_event(&mut rt, &ev).unwrap().is_empty());
}

#[test]
fn sender_falls_back_in_order() {
    let mut m = IncomingMessage {
        message: None,
        quote_author: None,
        source_uuid: None,
        source_number: Some(s("+1555")),
        source: Some(s("src")),
    };
    assert_eq!(sender_id(&m), "+1555");
    m.source_number = None;
    assert_eq!(sender_id(&m), "src");
    m.source = None;
    assert_eq!(sender_id(&m), "unknown");
}

#[test]
fn update_welcomes_new_members_once() {
    let mut c = policy();
    c.welcome_template = Some(s("Hi ##{@user}##, welcome!"));
    c.last_members_snapshot = vec![s(ADMIN), s(BOT), s(USER)];
    let mut rt = runtime(c);
    let contacts = vec![ContactRecord { uuid: Some(s("new-1")), number: None, name: Some(s("Ann")) }];
    let ev = GroupEvent::MembershipUpdate {
        groups: listing(&[ADMIN, BOT], &[ADMIN, BOT, USER, "new-1", "0f1e2d3c-4b5a-6978-8796-a5b4c3d2e1f0"]),
        contacts,
    };
    let first = handle_group_event(&mut rt, &ev).unwrap();
    assert_eq!(
        sends(&first),
        vec![s("Hi Ann, welcome!"), s("Hi 0f1e2d…e1f0, welcome!")]
    );
    let save = first.iter().position(|a| *a == Action::SaveConfig).unwrap();
    let send = first.iter().position(|a| matches!(a, Action::Send(_))).unwrap();
    assert!(save < send);
    assert_eq!(rt.cfg.last_members_snapshot.len(), 5);
    let second = handle_group_event(&mut rt, &ev).unwrap();
    assert!(sends(&second).is_empty());
}

#[test]
fn update_takes_over_permissions_with_admin_rights() {
    let mut rt = runtime(policy());
    let ev = GroupEvent::MembershipUpdate { groups: listing(&[BOT], &[BOT, USER]), contacts: vec![] };
    let acts = handle_group_event(&mut rt, &ev).unwrap();
    let updates: Vec<&Action> = acts.iter().filter(|a| matches!(a, Action::UpdatePermissions(_))).collect();
    assert_eq!(
        updates,
        vec![&Action::UpdatePermissions(PermissionUpdate {
            add_member: s("EVERY_MEMBER"),
            send_message: s("EVERY_MEMBER"),
            edit_details: s("ONLY_ADMINS"),
        })]
    );
    assert!(rt.cfg.bot_has_admin);
}

#[test]
fn update_without_admin_rights_issues_no_takeover() {
    let mut rt = runtime(policy());
    let ev = GroupEvent::MembershipUpdate { groups: listing(&[ADMIN], &[ADMIN, BOT]), contacts: vec![] };
    let acts = handle_group_event(&mut rt, &ev).unwrap();
    assert!(!rt.cfg.bot_has_admin);
    assert!(acts.iter().all(|a| !matches!(a, Action::UpdatePermissions(_))));
    assert_eq!(rt.admins, vec![s(ADMIN)]);
}

#[test]
fn first_update_without_snapshot_welcomes_nobody() {
    let mut c = policy();
    c.welcome_template = Some(s("Hi ##{@user}##"));
    let mut rt = runtime(c);
    let ev = GroupEvent::MembershipUpdate { groups: listing(&[BOT], &[BOT, USER]), contacts: vec![] };
    let acts = handle_group_event(&mut rt, &ev).unwrap();
    assert!(sends(&acts).is_empty());
    assert_eq!(rt.cfg.last_members_snapshot, vec![s(BOT), s(USER)]);
}

#[test]
fn update_for_unlisted_group_fails() {
    let mut rt = runtime(policy());
    let mut groups = listing(&[BOT], &[BOT]);
    groups[0].id = s("other");
    let ev = GroupEvent::MembershipUpdate { groups, contacts: vec![] };
    assert_eq!(handle_group_event(&mut rt, &ev), Err(RefreshError::GroupNotListed));
    assert_eq!(rt.members, vec![s(ADMIN), s(BOT), s(USER)]);
}

#[test]
fn warning_steps() {
    let c = policy();
    let user = s(USER);
    assert_eq!(
        warn_actions(&c, &user, None, 100),
        vec![
            Action::StoreWarnMark(s(USER), WarnMark { first_ts: 100, count: 1 }),
            Action::Send(c.warn_message.clone()),
        ]
    );
    let mark = WarnMark { first_ts: 100, count: 3 };
    assert_eq!(
        warn_actions(&c, &user, Some(mark), 200),
        vec![
            Action::Remove(s(USER)),
            Action::ClearWarnMark(s(USER)),
            Action::Send(s(KICKED_FOR_WARNINGS_REPLY)),
        ]
    );
    let now = warn_and_maybe_kick(&c, &user, None);
    assert!(matches!(&now[0], Action::StoreWarnMark(_, m) if m.count == 1));
}

#[test]
fn removal_reports() {
    assert_eq!(removal_report(&Ok(())), REMOVED_REPLY);
    assert_eq!(removal_report(&Err(s("timeout"))), "踢人失败：timeout");
}

#[test]
fn update_kind() {
    assert!(is_membership_update(&s("UPDATE")));
    assert!(!is_membership_update(&s("DELIVER")));
}
