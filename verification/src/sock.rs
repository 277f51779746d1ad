//! Where the daemon's IPC socket lives: in the system run directory when the process may write
//! there, in the temporary directory otherwise.
use vstd::prelude::*;

verus! {

/// The socket in the system run directory.
pub const SOCK_SYSTEM_PATH: &'static str = "/run/localex.sock";

/// The socket in the temporary directory.
pub const SOCK_PATH: &'static str = "/tmp/localex.sock";

/// What the permission check reads of a file's metadata.
#[derive(Clone, Copy, PartialEq, Eq, Structural, Debug)]
pub struct FileMetadata {
    pub mode: u32,
    pub uid: u32,
    pub gid: u32,
}

/// Whether a process with user `uid` and group `gid` may write a file: as its owner with the
/// owner's write bit, in its group with the group's write bit, or through the others' bit.
pub open spec fn may_write(meta: FileMetadata, uid: u32, gid: u32) -> bool {
    (meta.uid == uid && meta.mode & 0o200 != 0) || (meta.gid == gid && meta.mode & 0o020 != 0) || meta.mode & 0o002
        != 0
}

/// `nix::unistd::getuid().as_raw()`: the process's real user id. Nothing is claimed of it.
#[verifier::external_body]
fn current_uid() -> u32 {
    nix::unistd::getuid().as_raw()
}

/// `nix::unistd::getgid().as_raw()`: the process's real group id. Nothing is claimed of it.
#[verifier::external_body]
fn current_gid() -> u32 {
    nix::unistd::getgid().as_raw()
}

/// Whether a process with the given ids may write a file with the given metadata.
pub fn permission_for(meta: FileMetadata, uid: u32, gid: u32) -> (r: bool)
    ensures
        r == may_write(meta, uid, gid),
{
    let user_write = meta.mode & 0o200 != 0;
    let group_write = meta.mode & 0o020 != 0;
    let others_write = meta.mode & 0o002 != 0;
    (meta.uid == uid && user_write) || (meta.gid == gid && group_write) || others_write
}

/// Whether this process may write the file whose metadata was read (`None` when it could not
/// be read): the permission for the process's user and group ids, which are read through
/// nix and are not stated here.
pub fn check_permissions(meta: Option<FileMetadata>) -> (r: Option<bool>)
    ensures
        r is Some <==> meta is Some,
        meta matches Some(m) ==> {
            &&& exists|uid: u32, gid: u32| r == Some(may_write(m, uid, gid))
            &&& m.mode & 0o002 != 0 ==> r == Some(true)
            &&& m.mode & 0o222 == 0 ==> r == Some(false)
            &&& r == Some(true) ==> m.mode & 0o222 != 0
        },
{
    match meta {
        Some(m) => {
            let uid = current_uid();
            let gid = current_gid();
            let r = permission_for(m, uid, gid);
            assert(r == may_write(m, uid, gid));
            proof {
                let mode = m.mode;
                assert(mode & 0o222 == 0 ==> mode & 0o200 == 0 && mode & 0o020 == 0 && mode & 0o002 == 0) by (bit_vector);
                assert(mode & 0o200 != 0 || mode & 0o020 != 0 || mode & 0o002 != 0 ==> mode & 0o222 != 0) by (bit_vector);
            }
            Some(r)
        },
        None => None,
    }
}

/// The socket a client connects to: the system one if it exists.
pub fn get_sock_connect_path(system_sock_exists: bool) -> (r: &'static str)
    ensures
        r@ == if system_sock_exists { SOCK_SYSTEM_PATH@ } else { SOCK_PATH@ },
{
    if system_sock_exists {
        SOCK_SYSTEM_PATH
    } else {
        SOCK_PATH
    }
}

/// The socket path for a given answer of the permission check.
pub fn mount_path_for(permission: Option<bool>) -> (r: &'static str)
    ensures
        r@ == if permission == Some(true) { SOCK_SYSTEM_PATH@ } else { SOCK_PATH@ },
{
    match permission {
        Some(true) => SOCK_SYSTEM_PATH,
        _ => SOCK_PATH,
    }
}

/// The socket the daemon listens on: the system one if this process may write it (its
/// metadata given, `None` when it could not be read), else the temporary one.
pub fn get_sock_mount_path(system_sock_metadata: Option<FileMetadata>) -> (r: &'static str)
    ensures
        r@ == SOCK_SYSTEM_PATH@ || r@ == SOCK_PATH@,
        system_sock_metadata is None ==> r@ == SOCK_PATH@,
        system_sock_metadata matches Some(m) ==> exists|uid: u32, gid: u32| r@ == if may_write(m, uid, gid) {
            SOCK_SYSTEM_PATH@
        } else {
            SOCK_PATH@
        },
        system_sock_metadata matches Some(m) && m.mode & 0o002 != 0 ==> r@ == SOCK_SYSTEM_PATH@,
        system_sock_metadata matches Some(m) && m.mode & 0o222 == 0 ==> r@ == SOCK_PATH@,
{
    mount_path_for(check_permissions(system_sock_metadata))
}

/// Whether either socket exists.
pub fn is_sock_exist(system_sock_exists: bool, tmp_sock_exists: bool) -> (r: bool)
    ensures
        r == (system_sock_exists || tmp_sock_exists),
{
    system_sock_exists || tmp_sock_exists
}

} // verus!
