//! The argument lists of the gateway invocations the engine issues.

use vstd::prelude::*;
use crate::config::PermissionUpdate;
use crate::text::views;

verus! {

/// The arguments that select the gateway's configuration directory, when one
/// is set, and the account.
pub open spec fn account_args(cfgdir: Option<Seq<char>>, acc: Seq<char>) -> Seq<Seq<char>> {
    match cfgdir {
        Some(d) => seq!["--config"@, d, "-u"@, acc],
        None => seq!["-u"@, acc],
    }
}

/// The view of an optional directory.
pub open spec fn dir_view(d: Option<String>) -> Option<Seq<char>> {
    match d {
        Some(s) => Some(s@),
        None => None,
    }
}

fn push_str(v: &mut Vec<String>, s: &str)
    ensures
        views(final(v)@) == views(old(v)@).push(s@),
{
    v.push(s.to_string());
    assert(views(v@) =~= views(old(v)@).push(s@));
}

fn account_prefix(cfgdir: &Option<String>, acc: &String) -> (r: Vec<String>)
    ensures
        views(r@) == account_args(dir_view(*cfgdir), acc@),
{
    let mut v: Vec<String> = Vec::new();
    match cfgdir {
        Some(d) => {
            push_str(&mut v, "--config");
            push_str(&mut v, d.as_str());
        },
        None => {},
    }
    push_str(&mut v, "-u");
    push_str(&mut v, acc.as_str());
    assert(views(v@) =~= account_args(dir_view(*cfgdir), acc@));
    v
}

/// Send `msg` to group `gid`.
pub fn send_message_args(cfgdir: &Option<String>, acc: &String, gid: &String, msg: &String) -> (r:
    Vec<String>)
    ensures
        views(r@) == account_args(dir_view(*cfgdir), acc@) + seq!["send"@, "-g"@, gid@, "-m"@, msg@],
{
    let mut v = account_prefix(cfgdir, acc);
    let ghost p = views(v@);
    push_str(&mut v, "send");
    push_str(&mut v, "-g");
    push_str(&mut v, gid.as_str());
    push_str(&mut v, "-m");
    push_str(&mut v, msg.as_str());
    assert(views(v@) =~= p + seq!["send"@, "-g"@, gid@, "-m"@, msg@]);
    v
}

/// Remove member `who` from group `gid`.
pub fn remove_member_args(cfgdir: &Option<String>, acc: &String, gid: &String, who: &String) -> (r:
    Vec<String>)
    ensures
        views(r@) == account_args(dir_view(*cfgdir), acc@) + seq![
            "updateGroup"@,
            "-g"@,
            gid@,
            "--remove-member"@,
            who@,
        ],
{
    let mut v = account_prefix(cfgdir, acc);
    let ghost p = views(v@);
    push_str(&mut v, "updateGroup");
    push_str(&mut v, "-g");
    push_str(&mut v, gid.as_str());
    push_str(&mut v, "--remove-member");
    push_str(&mut v, who.as_str());
    assert(views(v@) =~= p + seq!["updateGroup"@, "-g"@, gid@, "--remove-member"@, who@]);
    v
}

/// Set the three permissions of group `gid`.
pub fn update_permissions_args(
    cfgdir: &Option<String>,
    acc: &String,
    gid: &String,
    u: &PermissionUpdate,
) -> (r: Vec<String>)
    ensures
        views(r@) == account_args(dir_view(*cfgdir), acc@) + seq![
            "updateGroup"@,
            "-g"@,
            gid@,
            "--set-permission-add-member"@,
            u.add_member@,
            "--set-permission-send-messages"@,
            u.send_message@,
            "--set-permission-edit-details"@,
            u.edit_details@,
        ],
{
    let mut v = account_prefix(cfgdir, acc);
    let ghost p = views(v@);
    push_str(&mut v, "updateGroup");
    push_str(&mut v, "-g");
    push_str(&mut v, gid.as_str());
    push_str(&mut v, "--set-permission-add-member");
    push_str(&mut v, u.add_member.as_str());
    push_str(&mut v, "--set-permission-send-messages");
    push_str(&mut v, u.send_message.as_str());
    push_str(&mut v, "--set-permission-edit-details");
    push_str(&mut v, u.edit_details.as_str());
    assert(views(v@) =~= p + seq![
        "updateGroup"@,
        "-g"@,
        gid@,
        "--set-permission-add-member"@,
        u.add_member@,
        "--set-permission-send-messages"@,
        u.send_message@,
        "--set-permission-edit-details"@,
        u.edit_details@,
    ]);
    v
}

/// Stream received events as JSON lines, without end and without
/// attachments.
pub fn receive_args(cfgdir: &Option<String>, acc: &String) -> (r: Vec<String>)
    ensures
        views(r@) == account_args(dir_view(*cfgdir), acc@) + seq![
            "-o"@,
            "json"@,
            "receive"@,
            "-t"@,
            "-1"@,
            "--ignore-attachments"@,
        ],
{
    let mut v = account_prefix(cfgdir, acc);
    let ghost p = views(v@);
    push_str(&mut v, "-o");
    push_str(&mut v, "json");
    push_str(&mut v, "receive");
    push_str(&mut v, "-t");
    push_str(&mut v, "-1");
    push_str(&mut v, "--ignore-attachments");
    assert(views(v@) =~= p + seq!["-o"@, "json"@, "receive"@, "-t"@, "-1"@, "--ignore-attachments"@]);
    v
}

/// List the account's groups as JSON.
pub fn list_groups_args(cfgdir: &Option<String>, acc: &String) -> (r: Vec<String>)
    ensures
        views(r@) == account_args(dir_view(*cfgdir), acc@) + seq!["-o"@, "json"@, "listGroups"@],
{
    let mut v = account_prefix(cfgdir, acc);
    let ghost p = views(v@);
    push_str(&mut v, "-o");
    push_str(&mut v, "json");
    push_str(&mut v, "listGroups");
    assert(views(v@) =~= p + seq!["-o"@, "json"@, "listGroups"@]);
    v
}

/// List every known recipient with details as JSON.
pub fn list_contacts_args(cfgdir: &Option<String>, acc: &String) -> (r: Vec<String>)
    ensures
        views(r@) == account_args(dir_view(*cfgdir), acc@) + seq![
            "-o"@,
            "json"@,
            "listContacts"@,
            "--all-recipients"@,
            "--detailed"@,
        ],
{
    let mut v = account_prefix(cfgdir, acc);
    let ghost p = views(v@);
    push_str(&mut v, "-o");
    push_str(&mut v, "json");
    push_str(&mut v, "listContacts");
    push_str(&mut v, "--all-recipients");
    push_str(&mut v, "--detailed");
    assert(views(v@) =~= p + seq!["-o"@, "json"@, "listContacts"@, "--all-recipients"@, "--detailed"@]);
    v
}

} // verus!
