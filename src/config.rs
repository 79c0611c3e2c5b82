//! Per-group moderation policy and the permission settings it asks for.

use vstd::prelude::*;
use crate::rules::{KeywordGroupBan, KeywordGroupReply, KeywordGroupWarn};
use crate::text::{to_upper, trim, trimmed, upper_of};

verus! {

/// Only admins may do the thing a permission governs.
pub const ONLY_ADMINS: &'static str = "ONLY_ADMINS";

/// Every member may do the thing a permission governs.
pub const EVERY_MEMBER: &'static str = "EVERY_MEMBER";

/// The warning sent when no other text is configured.
pub const DEFAULT_WARN_MESSAGE: &'static str = "警告：请停止违规内容，否则将被移出群组。";

/// The moderation policy of one group, with the last member snapshot and
/// whether the moderator was last seen holding admin rights.
#[derive(Clone, Debug, PartialEq, Eq)]
pub struct GroupConfig {
    pub group_id: String,
    pub group_name: String,
    pub enabled: bool,
    pub only_admin_can_ban: bool,
    pub require_bot_admin_to_enforce: bool,
    pub welcome_template: Option<String>,
    pub auto_replies: Vec<KeywordGroupReply>,
    pub warn_rules: Vec<KeywordGroupWarn>,
    pub ban_rules: Vec<KeywordGroupBan>,
    pub warn_window_minutes: u64,
    pub warn_max_count: u32,
    pub warn_message: String,
    pub desired_permission_add_member: String,
    pub desired_permission_send_message: String,
    pub desired_permission_edit_details: String,
    pub last_members_snapshot: Vec<String>,
    pub bot_has_admin: bool,
}

/// The three group permissions the moderator sets when it takes over.
#[derive(Clone, Debug, PartialEq, Eq)]
pub struct PermissionUpdate {
    pub add_member: String,
    pub send_message: String,
    pub edit_details: String,
}

/// A permission level as typed, already trimmed and upper-cased, mapped to
/// one of the two levels: anything but `ONLY_ADMINS` / `ONLY-ADMINS` means
/// every member.
pub open spec fn perm_level(u: Seq<char>) -> Seq<char> {
    if u == ONLY_ADMINS@ || u == "ONLY-ADMINS"@ {
        ONLY_ADMINS@
    } else {
        EVERY_MEMBER@
    }
}

/// The takeover a configuration asks for: its three desired permissions
/// when the moderator holds admin rights, nothing otherwise.
pub open spec fn takeover_for(cfg: GroupConfig) -> Option<(Seq<char>, Seq<char>, Seq<char>)> {
    if cfg.bot_has_admin {
        Some(
            (
                cfg.desired_permission_add_member@,
                cfg.desired_permission_send_message@,
                cfg.desired_permission_edit_details@,
            ),
        )
    } else {
        None
    }
}

/// The view of a permission update.
pub open spec fn update_view(u: PermissionUpdate) -> (Seq<char>, Seq<char>, Seq<char>) {
    (u.add_member@, u.send_message@, u.edit_details@)
}

/// A permission level typed by an operator, in one of its two canonical forms.
pub fn normalize_perm(s: &str) -> (r: String)
    ensures
        r@ == perm_level(upper_of(trimmed(s@))),
{
    let u = to_upper(trim(s));
    let only = String::from_str(ONLY_ADMINS);
    let only_dash = String::from_str("ONLY-ADMINS");
    if u == only || u == only_dash {
        only
    } else {
        String::from_str(EVERY_MEMBER)
    }
}

/// The policy of a group that has none stored yet: disabled, bans by admins
/// only, enforcement only with admin rights, three warnings per ten minutes,
/// members may add members and send, only admins edit details.
pub fn default_group_config(gid: &str) -> (r: GroupConfig)
    ensures
        r.group_id@ == gid@,
        r.group_name@.len() == 0,
        !r.enabled,
        r.only_admin_can_ban,
        r.require_bot_admin_to_enforce,
        r.welcome_template is None,
        r.auto_replies@.len() == 0,
        r.warn_rules@.len() == 0,
        r.ban_rules@.len() == 0,
        r.warn_window_minutes == 10,
        r.warn_max_count == 3,
        r.warn_message@ == DEFAULT_WARN_MESSAGE@,
        r.desired_permission_add_member@ == EVERY_MEMBER@,
        r.desired_permission_send_message@ == EVERY_MEMBER@,
        r.desired_permission_edit_details@ == ONLY_ADMINS@,
        r.last_members_snapshot@.len() == 0,
        !r.bot_has_admin,
{
    GroupConfig {
        group_id: String::from_str(gid),
        group_name: String::new(),
        enabled: false,
        only_admin_can_ban: true,
        require_bot_admin_to_enforce: true,
        welcome_template: None,
        auto_replies: Vec::new(),
        warn_rules: Vec::new(),
        ban_rules: Vec::new(),
        warn_window_minutes: 10,
        warn_max_count: 3,
        warn_message: String::from_str(DEFAULT_WARN_MESSAGE),
        desired_permission_add_member: String::from_str(EVERY_MEMBER),
        desired_permission_send_message: String::from_str(EVERY_MEMBER),
        desired_permission_edit_details: String::from_str(ONLY_ADMINS),
        last_members_snapshot: Vec::new(),
        bot_has_admin: false,
    }
}

/// The permission update to issue for a group: its three desired settings
/// when the moderator holds admin rights there, none otherwise.
pub fn apply_takeover_permissions(cfg: &GroupConfig) -> (r: Option<PermissionUpdate>)
    ensures
        match r {
            Some(u) => takeover_for(*cfg) == Some(update_view(u)),
            None => takeover_for(*cfg) is None,
        },
{
    if !cfg.bot_has_admin {
        return None;
    }
    Some(
        PermissionUpdate {
            add_member: cfg.desired_permission_add_member.clone(),
            send_message: cfg.desired_permission_send_message.clone(),
            edit_details: cfg.desired_permission_edit_details.clone(),
        },
    )
}

} // verus!
