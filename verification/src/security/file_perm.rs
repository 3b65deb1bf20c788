//! File permission bits and access checks.
use vstd::prelude::*;
use super::user_group::{Uid, Gid, UserGroupTable, MAX_GROUPS};

verus! {

/// Read permission bit.
pub const PERM_READ: u8 = 4;
/// Write permission bit.
pub const PERM_WRITE: u8 = 2;
/// Execute permission bit.
pub const PERM_EXECUTE: u8 = 1;
/// Set-user-id bit of a mode.
pub const PERM_SUID: u16 = 0o4000;
/// Set-group-id bit of a mode.
pub const PERM_SGID: u16 = 0o2000;
/// Sticky bit of a mode.
pub const PERM_STICKY: u16 = 0o1000;

/// A file's mode with its owner and group, in the Unix layout: the owner's
/// bits are `0o700`, the group's `0o070`, everyone else's `0o007`, with the
/// set-user-id, set-group-id and sticky bits above them.
#[derive(Debug, Clone, Copy)]
pub struct FilePermissions {
    pub mode: u16,
    pub uid: Uid,
    pub gid: Gid,
}

impl FilePermissions {
    /// Whether the permission check may consult the group table.
    pub open spec fn checkable(&self, uid: Uid) -> bool {
        uid == 0 || uid == self.uid || (self.gid as int) < MAX_GROUPS
    }

    /// Whether `uid` with group `gid` holds permission `perm`: root always;
    /// the owner by the owner's bits (`perm << 6`); a member of the file's
    /// group, or a process in that group, by the group's bits (`perm << 3`);
    /// anyone else by the others' bits (`perm`).
    pub open spec fn permits(&self, groups: &UserGroupTable, uid: Uid, gid: Gid, perm: u8) -> bool {
        if uid == 0 {
            true
        } else if uid == self.uid {
            self.mode & ((perm as u16) << 6u16) != 0
        } else if groups.in_group(uid, self.gid) || gid == self.gid {
            self.mode & ((perm as u16) << 3u16) != 0
        } else {
            self.mode & (perm as u16) != 0
        }
    }

    /// Permissions with the given mode, owner and group.
    pub fn new(mode: u16, uid: Uid, gid: Gid) -> (p: Self)
        ensures
            p.mode == mode,
            p.uid == uid,
            p.gid == gid,
    {
        FilePermissions { mode, uid, gid }
    }

    /// Whether `uid`/`gid` may read.
    pub fn can_read(&self, groups: &UserGroupTable, uid: Uid, gid: Gid) -> (r: bool)
        requires
            groups.wf(),
            self.checkable(uid),
        ensures
            r == self.permits(groups, uid, gid, PERM_READ),
    {
        self.check_permission(groups, uid, gid, PERM_READ)
    }

    /// Whether `uid`/`gid` may write.
    pub fn can_write(&self, groups: &UserGroupTable, uid: Uid, gid: Gid) -> (r: bool)
        requires
            groups.wf(),
            self.checkable(uid),
        ensures
            r == self.permits(groups, uid, gid, PERM_WRITE),
    {
        self.check_permission(groups, uid, gid, PERM_WRITE)
    }

    /// Whether `uid`/`gid` may execute.
    pub fn can_execute(&self, groups: &UserGroupTable, uid: Uid, gid: Gid) -> (r: bool)
        requires
            groups.wf(),
            self.checkable(uid),
        ensures
            r == self.permits(groups, uid, gid, PERM_EXECUTE),
    {
        self.check_permission(groups, uid, gid, PERM_EXECUTE)
    }

    /// Whether `uid`/`gid` holds permission `perm`.
    pub fn check_permission(&self, groups: &UserGroupTable, uid: Uid, gid: Gid, perm: u8) -> (r: bool)
        requires
            groups.wf(),
            self.checkable(uid),
        ensures
            r == self.permits(groups, uid, gid, perm),
    {
        if uid == 0 {
            return true;
        }
        if uid == self.uid {
            return (self.mode & ((perm as u16) << 6u16)) != 0;
        }
        if groups.is_user_in_group(uid, self.gid) || gid == self.gid {
            return (self.mode & ((perm as u16) << 3u16)) != 0;
        }
        (self.mode & (perm as u16)) != 0
    }

    /// Replaces the mode.
    pub fn set_permission(&mut self, mode: u16)
        ensures
            final(self).mode == mode,
            final(self).uid == old(self).uid,
            final(self).gid == old(self).gid,
    {
        self.mode = mode;
    }

    /// Whether the set-user-id bit is set.
    pub fn has_suid(&self) -> (r: bool)
        ensures
            r == (self.mode & PERM_SUID != 0),
    {
        (self.mode & PERM_SUID) != 0
    }

    /// Whether the set-group-id bit is set.
    pub fn has_sgid(&self) -> (r: bool)
        ensures
            r == (self.mode & PERM_SGID != 0),
    {
        (self.mode & PERM_SGID) != 0
    }

    /// Whether the sticky bit is set.
    pub fn has_sticky(&self) -> (r: bool)
        ensures
            r == (self.mode & PERM_STICKY != 0),
    {
        (self.mode & PERM_STICKY) != 0
    }
}

/// Checks one of read, write or execute; any other request is refused.
pub fn check_file_access(
    groups: &UserGroupTable,
    permissions: &FilePermissions,
    uid: Uid,
    gid: Gid,
    requested_perm: u8,
) -> (r: bool)
    requires
        groups.wf(),
        permissions.checkable(uid),
    ensures
        r == ((requested_perm == PERM_READ || requested_perm == PERM_WRITE || requested_perm == PERM_EXECUTE)
            && permissions.permits(groups, uid, gid, requested_perm)),
{
    if requested_perm == PERM_READ {
        permissions.can_read(groups, uid, gid)
    } else if requested_perm == PERM_WRITE {
        permissions.can_write(groups, uid, gid)
    } else if requested_perm == PERM_EXECUTE {
        permissions.can_execute(groups, uid, gid)
    } else {
        false
    }
}

/// Permissions of mode `0o666` with the bits of `umask` cleared.
pub fn create_default_permissions(uid: Uid, gid: Gid, umask: u16) -> (p: FilePermissions)
    ensures
        p.mode == 0o666u16 & !umask,
        p.uid == uid,
        p.gid == gid,
{
    FilePermissions::new(0o666u16 & !umask, uid, gid)
}

} // verus!
