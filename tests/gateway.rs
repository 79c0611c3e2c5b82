use magicbot::commands::{
    list_contacts_args, list_groups_args, receive_args, remove_member_args, send_message_args,
    update_permissions_args,
};
use magicbot::config::{default_group_config, PermissionUpdate};
use magicbot::engine::{Action, GroupEvent, IncomingMessage};
use magicbot::gateway::{
    build_identity_name_map, identity_id, list_groups, list_groups_full, parse_identities,
    ContactRecord, GroupRecord, Identity, IdentityRecord,
};
use magicbot::registry::{load_all_groups_runtime, resolve_self_id, GroupRegistry};
use magicbot::runtime::GroupRuntime;

fn s(x: &str) -> String {
    x.to_string()
}

fn rec(uuid: Option<&str>, number: Option<&str>) -> IdentityRecord {
    IdentityRecord { uuid: uuid.map(s), number: number.map(s) }
}

#[test]
fn identity_prefers_uuid_then_number() {
    assert_eq!(identity_id(&rec(Some("u"), Some("+1"))), "u");
    assert_eq!(identity_id(&rec(None, Some("+1"))), "+1");
    assert_eq!(identity_id(&rec(None, None)), "");
}

#[test]
fn identities_without_identifier_are_dropped() {
    let ids = parse_identities(&vec![
        rec(Some("u1"), Some("+1")),
        rec(None, None),
        rec(Some(""), Some("+2")),
        rec(None, Some("+3")),
    ]);
    assert_eq!(
        ids,
        vec![
            Identity { id: s("u1"), number: Some(s("+1")), name: None },
            Identity { id: s("+3"), number: Some(s("+3")), name: None },
        ]
    );
}

#[test]
fn groups_without_identifier_are_dropped() {
    let gs = vec![
        GroupRecord { id: Some(s("g1")), name: None, admins: vec![], members: vec![rec(Some("u"), None)] },
        GroupRecord { id: None, name: Some(s("x")), admins: vec![], members: vec![] },
    ];
    let full = list_groups_full(&gs);
    assert_eq!(full.len(), 1);
    assert_eq!(full[0].id, "g1");
    assert_eq!(full[0].name, "");
    assert_eq!(full[0].members[0].id, "u");
    let summary = list_groups(&gs);
    assert_eq!(summary.len(), 1);
    assert_eq!(summary[0].id, "g1");
}

#[test]
fn contact_names_by_uuid_and_number() {
    let m = build_identity_name_map(&vec![
        ContactRecord { uuid: Some(s("u1")), number: Some(s("+1")), name: Some(s("Ann")) },
        ContactRecord { uuid: Some(s("u2")), number: None, name: None },
        ContactRecord { uuid: None, number: Some(s("+1")), name: Some(s("Bob")) },
    ]);
    assert_eq!(m.get(&s("u1")), Some(s("Ann")));
    assert_eq!(m.get(&s("+1")), Some(s("Bob")));
    assert_eq!(m.get(&s("u2")), None);
}

fn member(id: &str, number: Option<&str>) -> Identity {
    Identity { id: s(id), number: number.map(s), name: None }
}

#[test]
fn self_id_from_account_number() {
    let gs = list_groups_full(&vec![GroupRecord {
        id: Some(s("g1")),
        name: Some(s("One")),
        admins: vec![],
        members: vec![rec(Some("other"), Some("+2")), rec(Some("me"), Some("+1"))],
    }]);
    assert_eq!(resolve_self_id(&s("+1"), &gs), "me");
    assert_eq!(resolve_self_id(&s("+9"), &gs), "+9");
}

#[test]
fn load_watches_only_stored_groups() {
    let full = vec![
        magicbot::gateway::GroupFull {
            id: s("g1"),
            name: s("One"),
            admins: vec![member("me", Some("+1"))],
            members: vec![member("me", Some("+1")), member("u", None)],
        },
        magicbot::gateway::GroupFull { id: s("g2"), name: s("Two"), admins: vec![], members: vec![] },
    ];
    let stored = vec![Some(default_group_config("g1")), None];
    let (mut reg, self_id) = load_all_groups_runtime(&s("+1"), &full, stored, &vec![]);
    assert_eq!(self_id, "me");
    assert!(reg.contains(&s("g1")));
    assert!(!reg.contains(&s("g2")));
    assert_eq!(reg.len(), 1);
    let ev = GroupEvent::Message(IncomingMessage {
        message: Some(s("hello")),
        quote_author: None,
        source_uuid: Some(s("u")),
        source_number: None,
        source: None,
    });
    assert!(reg.dispatch(&s("g2"), &ev).is_none());
    let r = reg.dispatch(&s("g1"), &ev).unwrap().unwrap();
    assert!(r.is_empty());
}

#[test]
fn loaded_group_fills_name_and_admin_flag() {
    let full = vec![magicbot::gateway::GroupFull {
        id: s("g1"),
        name: s("One"),
        admins: vec![member("me", Some("+1"))],
        members: vec![member("me", Some("+1"))],
    }];
    let mut cfg = default_group_config("g1");
    cfg.enabled = true;
    cfg.ban_rules = vec![magicbot::rules::KeywordGroupBan { keywords: vec![s("spam")] }];
    let (mut reg, _) = load_all_groups_runtime(&s("+1"), &full, vec![Some(cfg)], &vec![]);
    let ev = GroupEvent::Message(IncomingMessage {
        message: Some(s("spam!")),
        quote_author: None,
        source_uuid: Some(s("x")),
        source_number: None,
        source: None,
    });
    let acts = reg.dispatch(&s("g1"), &ev).unwrap().unwrap();
    assert_eq!(acts, vec![Action::Remove(s("x")), Action::ClearWarnMark(s("x"))]);
}

#[test]
fn gateway_argument_lists() {
    let dir = Some(s("/etc/sig"));
    assert_eq!(
        send_message_args(&dir, &s("+1"), &s("g"), &s("hi")),
        vec!["--config", "/etc/sig", "-u", "+1", "send", "-g", "g", "-m", "hi"]
    );
    assert_eq!(
        remove_member_args(&None, &s("+1"), &s("g"), &s("u")),
        vec!["-u", "+1", "updateGroup", "-g", "g", "--remove-member", "u"]
    );
    let u = PermissionUpdate { add_member: s("A"), send_message: s("B"), edit_details: s("C") };
    assert_eq!(
        update_permissions_args(&None, &s("+1"), &s("g"), &u),
        vec![
            "-u", "+1", "updateGroup", "-g", "g", "--set-permission-add-member", "A",
            "--set-permission-send-messages", "B", "--set-permission-edit-details", "C"
        ]
    );
    assert_eq!(
        receive_args(&None, &s("+1")),
        vec!["-u", "+1", "-o", "json", "receive", "-t", "-1", "--ignore-attachments"]
    );
    assert_eq!(list_groups_args(&None, &s("+1")), vec!["-u", "+1", "-o", "json", "listGroups"]);
    assert_eq!(
        list_contacts_args(&None, &s("+1")),
        vec!["-u", "+1", "-o", "json", "listContacts", "--all-recipients", "--detailed"]
    );
}

#[test]
fn local_accounts_are_plus_numbers_once() {
    let gs = vec![
        GroupRecord {
            id: Some(s("g1")),
            name: None,
            admins: vec![],
            members: vec![rec(Some("a"), Some("+1")), rec(Some("b"), Some("15")), rec(None, Some("+2"))],
        },
        GroupRecord { id: Some(s("g2")), name: None, admins: vec![], members: vec![rec(None, Some("+1"))] },
    ];
    assert_eq!(magicbot::gateway::local_account_candidates(&gs), vec![s("+1"), s("+2")]);
}

#[test]
fn name_map_later_insert_replaces() {
    let mut m = magicbot::names::NameMap::new();
    m.insert(s("k"), s("one"));
    m.insert(s("j"), s("two"));
    m.insert(s("k"), s("three"));
    assert_eq!(m.get(&s("k")), Some(s("three")));
    assert_eq!(m.get(&s("j")), Some(s("two")));
    assert_eq!(m.get(&s("x")), None);
}

#[test]
fn registry_insert_replaces_and_gets() {
    let rt = |name: &str| GroupRuntime {
        cfg: {
            let mut c = default_group_config("g1");
            c.group_name = s(name);
            c
        },
        admins: vec![],
        members: vec![],
        member_names: magicbot::names::NameMap::new(),
        self_id: s("me"),
    };
    let mut reg = GroupRegistry::new();
    assert!(reg.is_empty());
    reg.insert(s("g1"), rt("first"));
    reg.insert(s("g1"), rt("second"));
    assert_eq!(reg.len(), 1);
    assert_eq!(reg.get(&s("g1")).unwrap().cfg.group_name, "second");
    assert!(reg.get(&s("g2")).is_none());
}
