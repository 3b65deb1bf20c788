//! Security: users and groups, file permissions and process permission checks.
use vstd::prelude::*;

pub mod file_perm;
pub mod user_group;

use user_group::{Uid, Gid, UserGroupTable, MAX_GROUPS};
use file_perm::FilePermissions;

verus! {

/// Prepares the user and group tables: the root user and group are installed.
pub fn init(table: &mut UserGroupTable)
    requires
        old(table).wf(),
    ensures
        final(table).wf(),
        final(table).users_spec()[0] matches Some(u) && u.uid == 0 && u.gid == 0,
        final(table).groups_spec()[0] matches Some(g) && g.gid == 0 && g.member_count == 1 && g.members@[0] == 0,
        final(table).next_uid_spec() == 1,
        final(table).next_gid_spec() == 1,
{
    table.init();
}

/// Whether a process of `process_uid`/`process_gid` may act on an object of
/// `target_uid`/`target_gid`: root, the owner, a member of the target group or a
/// process in that group may.
pub fn check_process_permission(
    table: &UserGroupTable,
    process_uid: Uid,
    process_gid: Gid,
    target_uid: Uid,
    target_gid: Gid,
    requested_perm: u8,
) -> (r: bool)
    requires
        table.wf(),
        process_uid == 0 || process_uid == target_uid || (target_gid as int) < MAX_GROUPS,
    ensures
        r == (process_uid == 0 || process_uid == target_uid || table.in_group(process_uid, target_gid)
            || process_gid == target_gid),
{
    if process_uid == 0 {
        return true;
    }
    if process_uid == target_uid {
        return true;
    }
    table.is_user_in_group(process_uid, target_gid) || process_gid == target_gid
}

/// Checks one of read, write or execute on a file; any other request is refused.
pub fn check_file_access(
    table: &UserGroupTable,
    permissions: &FilePermissions,
    uid: Uid,
    gid: Gid,
    requested_perm: u8,
) -> (r: bool)
    requires
        table.wf(),
        permissions.checkable(uid),
    ensures
        r == ((requested_perm == file_perm::PERM_READ || requested_perm == file_perm::PERM_WRITE
            || requested_perm == file_perm::PERM_EXECUTE) && permissions.permits(table, uid, gid, requested_perm)),
{
    file_perm::check_file_access(table, permissions, uid, gid, requested_perm)
}

} // verus!
