//! Users, groups and group membership.
use vstd::prelude::*;
use vstd::string::StringSliceAdditionalSpecFns;

verus! {

/// A user identifier.
pub type Uid = u32;
/// A group identifier.
pub type Gid = u32;

/// Number of user slots.
pub const MAX_USERS: usize = 1024;
/// Number of group slots.
pub const MAX_GROUPS: usize = 256;
/// Capacity of a group's member list.
pub const MAX_GROUP_MEMBERS: usize = 32;

/// A user account; text fields are NUL-padded byte strings.
#[derive(Clone, Copy)]
pub struct User {
    pub uid: Uid,
    pub gid: Gid,
    pub name: [u8; 32],
    pub home_dir: [u8; 64],
    pub shell: [u8; 32],
}

/// A group and its first `member_count` members.
#[derive(Clone, Copy)]
pub struct Group {
    pub gid: Gid,
    pub name: [u8; 32],
    pub members: [Uid; 32],
    pub member_count: u8,
}

/// Errors of the security services.
#[derive(Debug, Clone, Copy, PartialEq, Eq, Structural)]
pub enum SecurityError {
    InvalidArgument,
    ResourceExhausted,
    NotFound,
    PermissionDenied,
    InternalError,
}

/// Whether `uid` is among the first `count` entries of `members`.
pub open spec fn is_member(members: Seq<Uid>, count: int, uid: Uid) -> bool {
    exists|i: int| 0 <= i < count && #[trigger] members[i] == uid
}

/// `bytes` truncated to 31 bytes and padded with zeros to `len` bytes.
pub open spec fn padded_name(bytes: Seq<u8>, len: nat) -> Seq<u8> {
    Seq::new(len, |i: int| if i < bytes.len() && i < 31 { bytes[i] } else { 0u8 })
}

/// The user and group tables with the next identifiers to hand out.
pub struct UserGroupTable {
    users: Vec<Option<User>>,
    groups: Vec<Option<Group>>,
    next_uid: u32,
    next_gid: u32,
}

impl UserGroupTable {
    /// Table sizes are fixed and every group counts at most `MAX_GROUP_MEMBERS` members.
    pub closed spec fn wf(&self) -> bool {
        &&& self.users@.len() == MAX_USERS
        &&& self.groups@.len() == MAX_GROUPS
        &&& forall|g: int| 0 <= g < MAX_GROUPS && (#[trigger] self.groups@[g]) is Some
            ==> self.groups@[g]->0.member_count <= MAX_GROUP_MEMBERS
    }

    /// The user slots, indexed by uid.
    pub closed spec fn users_spec(&self) -> Seq<Option<User>> {
        self.users@
    }

    /// The group slots, indexed by gid.
    pub closed spec fn groups_spec(&self) -> Seq<Option<Group>> {
        self.groups@
    }

    /// The uid the next user creation takes.
    pub closed spec fn next_uid_spec(&self) -> u32 {
        self.next_uid
    }

    /// The gid the next group creation takes.
    pub closed spec fn next_gid_spec(&self) -> u32 {
        self.next_gid
    }

    /// Whether group `gid` exists and lists `uid` among its members.
    pub open spec fn in_group(&self, uid: Uid, gid: Gid) -> bool {
        &&& (gid as int) < self.groups_spec().len()
        &&& self.groups_spec()[gid as int] matches Some(g)
        &&& is_member(g.members@, g.member_count as int, uid)
    }

    /// Empty tables; identifiers start at 1.
    pub fn new() -> (t: Self)
        ensures
            t.wf(),
            forall|u: int| 0 <= u < MAX_USERS ==> #[trigger] t.users_spec()[u] is None,
            forall|g: int| 0 <= g < MAX_GROUPS ==> #[trigger] t.groups_spec()[g] is None,
            t.next_uid_spec() == 1,
            t.next_gid_spec() == 1,
    {
        let mut users: Vec<Option<User>> = Vec::new();
        let mut i: usize = 0;
        while i < MAX_USERS
            invariant
                i <= MAX_USERS,
                users@.len() == i,
                forall|u: int| 0 <= u < i ==> #[trigger] users@[u] is None,
            decreases MAX_USERS - i,
        {
            users.push(None);
            i = i + 1;
        }
        let mut groups: Vec<Option<Group>> = Vec::new();
        let mut j: usize = 0;
        while j < MAX_GROUPS
            invariant
                j <= MAX_GROUPS,
                groups@.len() == j,
                forall|g: int| 0 <= g < j ==> #[trigger] groups@[g] is None,
            decreases MAX_GROUPS - j,
        {
            groups.push(None);
            j = j + 1;
        }
        UserGroupTable { users, groups, next_uid: 1, next_gid: 1 }
    }

    /// Installs the root user (uid 0, home "/root", shell "/bin/shell") and the
    /// root group (gid 0, counting one member, uid 0); identifiers restart at 1.
    pub fn init(&mut self)
        requires
            old(self).wf(),
        ensures
            final(self).wf(),
            final(self).users_spec() == old(self).users_spec().update(0, final(self).users_spec()[0]),
            final(self).groups_spec() == old(self).groups_spec().update(0, final(self).groups_spec()[0]),
            final(self).users_spec()[0] matches Some(u) && u.uid == 0 && u.gid == 0,
            final(self).groups_spec()[0] matches Some(g) && g.gid == 0 && g.member_count == 1 && g.members@[0] == 0,
            final(self).next_uid_spec() == 1,
            final(self).next_gid_spec() == 1,
    {
        let mut root_name = [0u8; 32];
        root_name[0] = 114u8;
        root_name[1] = 111u8;
        root_name[2] = 111u8;
        root_name[3] = 116u8;
        let mut root_home = [0u8; 64];
        root_home[0] = 47u8;
        root_home[1] = 114u8;
        root_home[2] = 111u8;
        root_home[3] = 111u8;
        root_home[4] = 116u8;
        let mut root_shell = [0u8; 32];
        let shell_text: [u8; 10] = [47u8, 98u8, 105u8, 110u8, 47u8, 115u8, 104u8, 101u8, 108u8, 108u8];
        let mut k: usize = 0;
        while k < 10
            invariant
                k <= 10,
                root_shell@.len() == 32,
            decreases 10 - k,
        {
            root_shell[k] = shell_text[k];
            k = k + 1;
        }
        let root_user = User { uid: 0, gid: 0, name: root_name, home_dir: root_home, shell: root_shell };
        let root_group = Group { gid: 0, name: root_name, members: [0u32; 32], member_count: 1 };
        self.users.set(0, Some(root_user));
        self.groups.set(0, Some(root_group));
        self.next_uid = 1;
        self.next_gid = 1;
        proof {
            assert forall|g: int| 0 <= g < MAX_GROUPS && (#[trigger] self.groups@[g]) is Some
                implies self.groups@[g]->0.member_count <= MAX_GROUP_MEMBERS by {
                if g != 0 { assert(self.groups@[g] == old(self).groups@[g]); }
            }
        }
    }

    /// Takes the next uid and fails with `ResourceExhausted`, the counter advanced.
    /// Below `MAX_USERS` an account would be built whose default shell, eleven
    /// bytes, is copied into the 32-byte shell field; that copy aborts on the
    /// length mismatch, so the call is defined only once uids are exhausted.
    /// `new` starts the counter at 1 and only this function advances it, so no
    /// table built by this module ever meets that condition: every account-creating
    /// call on such a table aborts, and this entry is kept for the exhausted case.
    pub fn create_user(&mut self, name: &str, gid: Gid) -> (r: Result<Uid, SecurityError>)
        requires
            old(self).wf(),
            (old(self).next_uid_spec() as int) >= MAX_USERS,
        ensures
            final(self).wf(),
            r == Err::<Uid, SecurityError>(SecurityError::ResourceExhausted),
            final(self).next_uid_spec() == old(self).next_uid_spec().wrapping_add(1),
            final(self).users_spec() == old(self).users_spec(),
            final(self).groups_spec() == old(self).groups_spec(),
            final(self).next_gid_spec() == old(self).next_gid_spec(),
    {
        let uid = self.next_uid;
        self.next_uid = self.next_uid.wrapping_add(1);
        if uid as usize >= MAX_USERS {
            return Err(SecurityError::ResourceExhausted);
        }
        Ok(uid)
    }

    /// Creates a group named by the first 31 bytes of `name`, with no member,
    /// under the next gid; from `MAX_GROUPS` on it fails with `ResourceExhausted`.
    /// The counter advances either way.
    pub fn create_group(&mut self, name: &str) -> (r: Result<Gid, SecurityError>)
        requires
            old(self).wf(),
        ensures
            final(self).wf(),
            final(self).next_gid_spec() == old(self).next_gid_spec().wrapping_add(1),
            final(self).users_spec() == old(self).users_spec(),
            final(self).next_uid_spec() == old(self).next_uid_spec(),
            (old(self).next_gid_spec() as int) >= MAX_GROUPS ==> r == Err::<Gid, SecurityError>(SecurityError::ResourceExhausted)
                && final(self).groups_spec() == old(self).groups_spec(),
            (old(self).next_gid_spec() as int) < MAX_GROUPS ==> {
                let gid = old(self).next_gid_spec();
                &&& r == Ok::<Gid, SecurityError>(gid)
                &&& final(self).groups_spec() == old(self).groups_spec().update(gid as int, final(self).groups_spec()[gid as int])
                &&& final(self).groups_spec()[gid as int] matches Some(g)
                &&& g.gid == gid && g.member_count == 0
                &&& g.name@ == padded_name(name.spec_bytes(), 32)
            },
    {
        let gid = self.next_gid;
        self.next_gid = self.next_gid.wrapping_add(1);
        if gid as usize >= MAX_GROUPS {
            return Err(SecurityError::ResourceExhausted);
        }
        let group_name = copy_name(name);
        let group = Group { gid, name: group_name, members: [0u32; 32], member_count: 0 };
        self.groups.set(gid as usize, Some(group));
        proof {
            assert forall|g: int| 0 <= g < MAX_GROUPS && (#[trigger] self.groups@[g]) is Some
                implies self.groups@[g]->0.member_count <= MAX_GROUP_MEMBERS by {
                if g != gid as int { assert(self.groups@[g] == old(self).groups@[g]); }
            }
        }
        Ok(gid)
    }

    /// Appends `uid` to the members of group `gid`; a full member list gives
    /// `ResourceExhausted`, a missing group `NotFound`.
    pub fn add_user_to_group(&mut self, uid: Uid, gid: Gid) -> (r: Result<(), SecurityError>)
        requires
            old(self).wf(),
            (gid as int) < MAX_GROUPS,
        ensures
            final(self).wf(),
            final(self).users_spec() == old(self).users_spec(),
            final(self).next_uid_spec() == old(self).next_uid_spec(),
            final(self).next_gid_spec() == old(self).next_gid_spec(),
            old(self).groups_spec()[gid as int] is None ==> r == Err::<(), SecurityError>(SecurityError::NotFound)
                && final(self).groups_spec() == old(self).groups_spec(),
            old(self).groups_spec()[gid as int] is Some ==> {
                let g = old(self).groups_spec()[gid as int]->0;
                if g.member_count >= MAX_GROUP_MEMBERS {
                    r == Err::<(), SecurityError>(SecurityError::ResourceExhausted)
                        && final(self).groups_spec() == old(self).groups_spec()
                } else {
                    &&& r == Ok::<(), SecurityError>(())
                    &&& final(self).groups_spec() == old(self).groups_spec().update(gid as int, Some(Group {
                        gid: g.gid,
                        name: g.name,
                        members: final(self).groups_spec()[gid as int]->0.members,
                        member_count: (g.member_count + 1) as u8,
                    }))
                    &&& final(self).groups_spec()[gid as int]->0.members@ == g.members@.update(g.member_count as int, uid)
                }
            },
    {
        match self.groups[gid as usize] {
            Some(group) => {
                if group.member_count as usize >= MAX_GROUP_MEMBERS {
                    return Err(SecurityError::ResourceExhausted);
                }
                let mut updated = group;
                updated.members[group.member_count as usize] = uid;
                updated.member_count = group.member_count + 1;
                self.groups.set(gid as usize, Some(updated));
                proof {
                    assert forall|g: int| 0 <= g < MAX_GROUPS && (#[trigger] self.groups@[g]) is Some
                        implies self.groups@[g]->0.member_count <= MAX_GROUP_MEMBERS by {
                        if g != gid as int { assert(self.groups@[g] == old(self).groups@[g]); }
                    }
                }
                Ok(())
            },
            None => Err(SecurityError::NotFound),
        }
    }

    /// The account of `uid`, if any.
    pub fn get_user(&self, uid: Uid) -> (r: Option<&User>)
        requires
            self.wf(),
            (uid as int) < MAX_USERS,
        ensures
            match self.users_spec()[uid as int] {
                Some(u) => r == Some(&u),
                None => r is None,
            },
    {
        match &self.users[uid as usize] {
            Some(u) => Some(u),
            None => None,
        }
    }

    /// The group `gid`, if any.
    pub fn get_group(&self, gid: Gid) -> (r: Option<&Group>)
        requires
            self.wf(),
            (gid as int) < MAX_GROUPS,
        ensures
            match self.groups_spec()[gid as int] {
                Some(g) => r == Some(&g),
                None => r is None,
            },
    {
        match &self.groups[gid as usize] {
            Some(g) => Some(g),
            None => None,
        }
    }

    /// Whether group `gid` exists and lists `uid` among its counted members.
    pub fn is_user_in_group(&self, uid: Uid, gid: Gid) -> (r: bool)
        requires
            self.wf(),
            (gid as int) < MAX_GROUPS,
        ensures
            r == self.in_group(uid, gid),
    {
        match &self.groups[gid as usize] {
            Some(group) => {
                let count = group.member_count;
                let mut i: u8 = 0;
                while i < count
                    invariant
                        i <= count,
                        count <= MAX_GROUP_MEMBERS,
                        count == group.member_count,
                        (gid as int) < self.groups@.len(),
                        self.groups@[gid as int] == Some(*group),
                        group.members@.len() == 32,
                        forall|k: int| 0 <= k < i ==> #[trigger] group.members@[k] != uid,
                    decreases count - i,
                {
                    if group.members[i as usize] == uid {
                        assert(group.members@[i as int] == uid);
                        return true;
                    }
                    i = i + 1;
                }
                false
            },
            None => false,
        }
    }
}

/// The first 31 bytes of `name`, zero-padded to 32.
fn copy_name(name: &str) -> (r: [u8; 32])
    ensures
        r@ == padded_name(name.spec_bytes(), 32),
{
    let bytes = name.as_bytes();
    let n = if bytes.len() < 31 { bytes.len() } else { 31 };
    let mut out = [0u8; 32];
    let mut i: usize = 0;
    while i < n
        invariant
            i <= n,
            n <= 31,
            n <= bytes@.len(),
            bytes@ == name.spec_bytes(),
            out@.len() == 32,
            forall|k: int| 0 <= k < i ==> #[trigger] out@[k] == bytes@[k],
            forall|k: int| i <= k < 32 ==> #[trigger] out@[k] == 0u8,
        decreases n - i,
    {
        out[i] = bytes[i];
        i = i + 1;
    }
    assert(out@ =~= padded_name(name.spec_bytes(), 32));
    out
}

/// A user added to a group is a member of it afterwards, and every earlier
/// member stays one: appending `uid` at position `count` of a member list
/// with room and counting one more member.
pub proof fn law_added_user_is_member(members: Seq<Uid>, count: int, uid: Uid, other: Uid)
    requires
        0 <= count < members.len(),
    ensures
        is_member(members.update(count, uid), count + 1, uid),
        is_member(members, count, other) ==> is_member(members.update(count, uid), count + 1, other),
{
    let m = members.update(count, uid);
    assert(m[count] == uid);
    if is_member(members, count, other) {
        let i = choose|i: int| 0 <= i < count && #[trigger] members[i] == other;
        assert(m[i] == other);
    }
}

} // verus!
