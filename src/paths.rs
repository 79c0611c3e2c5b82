//! Where the durable records live: one for global settings, one per watched
//! group, and one warn mark per group and user.

use vstd::prelude::*;

verus! {

/// The directory that holds every record.
pub const STATE_DIR: &'static str = "/var/lib/magicbot";

/// The record of the global settings.
pub fn global_path() -> (r: String)
    ensures
        r@ == STATE_DIR@ + "/global.json"@,
{
    String::from_str(STATE_DIR).concat("/global.json")
}

/// The directory of the per-group records.
pub fn groups_dir() -> (r: String)
    ensures
        r@ == STATE_DIR@ + "/groups"@,
{
    String::from_str(STATE_DIR).concat("/groups")
}

/// The record of one group's policy.
pub fn group_cfg_path(gid: &str) -> (r: String)
    ensures
        r@ == STATE_DIR@ + "/groups"@ + "/"@ + gid@ + ".json"@,
{
    groups_dir().concat("/").concat(gid).concat(".json")
}

/// The directory of one group's warn marks.
pub fn group_mark_dir(gid: &str) -> (r: String)
    ensures
        r@ == STATE_DIR@ + "/marks/"@ + gid@,
{
    String::from_str(STATE_DIR).concat("/marks/").concat(gid)
}

/// The warn mark of one user in one group.
pub fn warn_mark_path(gid: &str, user: &str) -> (r: String)
    ensures
        r@ == STATE_DIR@ + "/marks/"@ + gid@ + "/"@ + user@ + ".json"@,
{
    group_mark_dir(gid).concat("/").concat(user).concat(".json")
}

} // verus!
