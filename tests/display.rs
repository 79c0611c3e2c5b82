use magicbot::config::{default_group_config, normalize_perm, apply_takeover_permissions, PermissionUpdate};
use magicbot::display::{keyword_line, list_reply_groups, short_id, truncate};
use magicbot::paths::{global_path, group_cfg_path, group_mark_dir, groups_dir, warn_mark_path};
use magicbot::rules::KeywordGroupReply;

#[test]
fn truncate_cuts_and_marks() {
    assert_eq!(truncate("hello", 10), "hello");
    assert_eq!(truncate("hello", 5), "hello");
    assert_eq!(truncate("hello world", 5), "hello…");
    assert_eq!(truncate("群组名称很长", 2), "群组…");
    assert_eq!(truncate("", 0), "");
}

#[test]
fn short_id_keeps_short_ids() {
    assert_eq!(short_id("+15550001111"), "+15550001111");
    assert_eq!(short_id("0f1e2d3c-4b5a-6978-8796-a5b4c3d2e1f0"), "0f1e2d…e1f0");
}

#[test]
fn reply_listing_lines() {
    let rules = vec![
        KeywordGroupReply {
            keywords: vec!["a".to_string(), "b".to_string()],
            reply: "short".to_string(),
        },
        KeywordGroupReply { keywords: vec!["c".to_string()], reply: "x".repeat(60) },
    ];
    let lines = list_reply_groups(&rules);
    assert_eq!(lines[0], "A. [a, b] => short");
    assert_eq!(lines[1], format!("B. [c] => {}…", "x".repeat(50)));
    assert_eq!(list_reply_groups(&[]), Vec::<String>::new());
}

#[test]
fn permission_levels_normalise() {
    assert_eq!(normalize_perm(" only-admins "), "ONLY_ADMINS");
    assert_eq!(normalize_perm("only_admins"), "ONLY_ADMINS");
    assert_eq!(normalize_perm("Every-Member"), "EVERY_MEMBER");
    assert_eq!(normalize_perm("EVERY_MEMBER"), "EVERY_MEMBER");
    assert_eq!(normalize_perm("admins please"), "EVERY_MEMBER");
    assert_eq!(normalize_perm(""), "EVERY_MEMBER");
}

#[test]
fn default_policy_values() {
    let c = default_group_config("g1");
    assert_eq!(c.group_id, "g1");
    assert!(!c.enabled);
    assert!(c.only_admin_can_ban);
    assert!(c.require_bot_admin_to_enforce);
    assert_eq!(c.warn_window_minutes, 10);
    assert_eq!(c.warn_max_count, 3);
    assert_eq!(c.desired_permission_add_member, "EVERY_MEMBER");
    assert_eq!(c.desired_permission_send_message, "EVERY_MEMBER");
    assert_eq!(c.desired_permission_edit_details, "ONLY_ADMINS");
    assert!(c.last_members_snapshot.is_empty());
}

#[test]
fn takeover_needs_admin_rights() {
    let mut c = default_group_config("g1");
    assert_eq!(apply_takeover_permissions(&c), None);
    c.bot_has_admin = true;
    c.desired_permission_add_member = "ONLY_ADMINS".to_string();
    assert_eq!(
        apply_takeover_permissions(&c),
        Some(PermissionUpdate {
            add_member: "ONLY_ADMINS".to_string(),
            send_message: "EVERY_MEMBER".to_string(),
            edit_details: "ONLY_ADMINS".to_string(),
        })
    );
    assert_eq!(apply_takeover_permissions(&c), apply_takeover_permissions(&c));
}

#[test]
fn record_paths() {
    assert_eq!(global_path(), "/var/lib/magicbot/global.json");
    assert_eq!(groups_dir(), "/var/lib/magicbot/groups");
    assert_eq!(group_cfg_path("abc"), "/var/lib/magicbot/groups/abc.json");
    assert_eq!(group_mark_dir("abc"), "/var/lib/magicbot/marks/abc");
    assert_eq!(warn_mark_path("abc", "u1"), "/var/lib/magicbot/marks/abc/u1.json");
}

#[test]
fn keyword_listing_line() {
    assert_eq!(keyword_line(0, &vec!["a".to_string(), "b c".to_string()]), "A. a, b c");
    assert_eq!(keyword_line(2, &vec![]), "C. ");
}
