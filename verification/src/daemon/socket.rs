//! Where the daemon listens, and the limit on that path.

use crate::text::{decimal, join_path, path_join, push_decimal};
use vstd::prelude::*;
use vstd::string::*;

verus! {

/// `sockaddr_un.sun_path` is 108 bytes including the terminator.
pub const MAX_SOCKET_PATH: usize = 107;

/// Refusal when `$XDG_RUNTIME_DIR` is unset.
pub open spec fn no_runtime_dir_message() -> Seq<char> {
    "XDG_RUNTIME_DIR is not set; refusing to fall back to a world-readable directory"@
}

/// `$XDG_RUNTIME_DIR/penguinwave/daemon.sock`.
///
/// `$XDG_RUNTIME_DIR` is required and there is no `/tmp` fallback: filesystem
/// permissions are the only authentication on this socket, so a
/// world-writable directory would hand local audio control to any local user.
pub fn socket_path(runtime: Option<&str>) -> (r: Result<String, String>)
    ensures
        runtime is None ==> (r matches Err(m) && m@ == no_runtime_dir_message()),
        runtime matches Some(dir) ==> (r matches Ok(p) && p@ == path_join(
            path_join(dir@, "penguinwave"@),
            "daemon.sock"@,
        )),
{
    match runtime {
        None => Err(String::from_str(
            "XDG_RUNTIME_DIR is not set; refusing to fall back to a world-readable directory",
        )),
        Some(dir) => {
            let d = join_path(dir, "penguinwave");
            Ok(join_path(d.as_str(), "daemon.sock"))
        },
    }
}

/// The refusal for a socket path of `len` bytes.
pub open spec fn too_long_message(len: nat) -> Seq<char> {
    "socket path is "@ + decimal(len) + " bytes, over the "@ + decimal(MAX_SOCKET_PATH as nat)
        + "-byte unix socket limit; XDG_RUNTIME_DIR is too deep"@
}

/// Refuse a path the kernel cannot bind, with a message that says what to do
/// about it.
pub fn check_socket_path_len(len: usize) -> (r: Result<(), String>)
    ensures
        len <= MAX_SOCKET_PATH ==> r is Ok,
        len > MAX_SOCKET_PATH ==> (r matches Err(m) && m@ == too_long_message(len as nat)),
{
    if len <= MAX_SOCKET_PATH {
        return Ok(());
    }
    let mut m = String::from_str("socket path is ");
    push_decimal(&mut m, len as u64);
    m.append(" bytes, over the ");
    push_decimal(&mut m, MAX_SOCKET_PATH as u64);
    m.append("-byte unix socket limit; XDG_RUNTIME_DIR is too deep");
    Err(m)
}

} // verus!
