//! The client's side of the socket: where to find the daemon, what to say
//! when it is not there, and which answers to accept.

use crate::proto::{version_mismatch_message, version_supported, ErrorKind, PwError, MAX_FRAME_BYTES};
use crate::text::{join_path, path_join};
use vstd::prelude::*;
use vstd::string::*;

verus! {

pub open spec fn no_runtime_dir_message() -> Seq<char> {
    "XDG_RUNTIME_DIR is not set; cannot locate the daemon socket"@
}

/// `$XDG_RUNTIME_DIR/penguinwave/daemon.sock`, the same path the daemon
/// binds; without `$XDG_RUNTIME_DIR` there is nowhere to look.
pub fn socket_path(runtime: Option<&str>) -> (r: Result<String, PwError>)
    ensures
        runtime is None ==> (r matches Err(e) && e.kind == ErrorKind::Internal && e.msg@
            == no_runtime_dir_message()),
        runtime matches Some(dir) ==> (r matches Ok(p) && p@ == path_join(
            path_join(dir@, "penguinwave"@),
            "daemon.sock"@,
        )),
{
    match runtime {
        None => Err(
            PwError::new(
                ErrorKind::Internal,
                String::from_str("XDG_RUNTIME_DIR is not set; cannot locate the daemon socket"),
            ),
        ),
        Some(dir) => {
            let d = join_path(dir, "penguinwave");
            Ok(join_path(d.as_str(), "daemon.sock"))
        },
    }
}

pub open spec fn not_running_message(path: Seq<char>) -> Seq<char> {
    "no daemon listening on "@ + path
        + "\n\nstart it with:\n    systemctl --user enable --now penguinwave.service"@
}

/// What to print when nothing listens on `path`. The daemon is a user unit,
/// so the fix given is a `--user` command.
pub fn not_running(path: &str) -> (e: PwError)
    ensures
        e.kind == ErrorKind::PipeWireUnavailable,
        e.msg@ == not_running_message(path@),
{
    let mut m = String::from_str("no daemon listening on ");
    m.append(path);
    m.append("\n\nstart it with:\n    systemctl --user enable --now penguinwave.service");
    PwError::new(ErrorKind::PipeWireUnavailable, m)
}

/// A line read from the daemon, by its length in bytes: an empty read means
/// the daemon closed the connection, and a line over the frame cap is
/// refused.
pub fn check_line(n: usize) -> (r: Result<(), PwError>)
    ensures
        n == 0 ==> (r matches Err(e) && e.kind == ErrorKind::PipeWireUnavailable && e.msg@
            == "daemon closed the connection"@),
        n > MAX_FRAME_BYTES ==> (r matches Err(e) && e.kind == ErrorKind::BadRequest && e.msg@
            == "daemon sent a frame over the size cap"@),
        0 < n <= MAX_FRAME_BYTES ==> r is Ok,
{
    if n == 0 {
        return Err(
            PwError::new(
                ErrorKind::PipeWireUnavailable,
                String::from_str("daemon closed the connection"),
            ),
        );
    }
    if n > MAX_FRAME_BYTES {
        return Err(
            PwError::new(
                ErrorKind::BadRequest,
                String::from_str("daemon sent a frame over the size cap"),
            ),
        );
    }
    Ok(())
}

/// Whether a daemon announcing the protocol range `proto` can be talked to:
/// one end of its range must be a version this client speaks.
pub fn daemon_compatible(proto: (u32, u32)) -> (r: bool)
    ensures
        r == (version_supported(proto.0) || version_supported(proto.1)),
{
    version_supported(proto.0) || version_supported(proto.1)
}

/// The client's answer to a daemon's hello: compatible, or the mismatch
/// carrying the range the daemon announced.
pub fn check_hello(proto: (u32, u32)) -> (r: Result<(), PwError>)
    ensures
        (version_supported(proto.0) || version_supported(proto.1)) ==> r is Ok,
        !(version_supported(proto.0) || version_supported(proto.1)) ==> (r matches Err(e) && e.kind
            == ErrorKind::VersionMismatch && e.msg@ == version_mismatch_message(proto)
            && !e.retryable && e.supported == Some(proto)),
{
    if daemon_compatible(proto) {
        Ok(())
    } else {
        Err(PwError::version_mismatch(proto))
    }
}

/// What the client does with one line while it waits for the reply to
/// request `awaited`.
#[derive(Debug, PartialEq)]
pub enum ReplyStep<T> {
    /// Not this reply (an event, another reply, or not a response frame):
    /// read on.
    Skip,
    /// The reply: its answer or its error.
    Reply(Result<T, PwError>),
}

/// Events interleave with replies, so every line that is not the response
/// frame carrying `awaited` is skipped. `frame` is the line read as a
/// response frame, its id and payload, or `None` when it is not one.
pub fn reply_step<T>(awaited: u32, frame: Option<(u32, Result<T, PwError>)>) -> (r: ReplyStep<T>)
    ensures
        match frame {
            Some((id, payload)) => if id == awaited {
                r == ReplyStep::Reply(payload)
            } else {
                r == ReplyStep::<T>::Skip
            },
            None => r == ReplyStep::<T>::Skip,
        },
{
    match frame {
        Some((id, payload)) => if id == awaited {
            ReplyStep::Reply(payload)
        } else {
            ReplyStep::Skip
        },
        None => ReplyStep::Skip,
    }
}

} // verus!
