//! HID failure taxonomy.

use crate::proto::{DeviceId, ErrorKind};
use crate::text::{hex4, push_hex4};
use vstd::string::*;
use vstd::prelude::*;

verus! {

/// Why a HID operation did not succeed.
///
/// `Absent` is kept apart from the transfer failures: an unplugged headset is
/// expected, a failed transfer on a present one is not.
#[derive(Debug, Clone, PartialEq, Eq)]
pub enum HidError {
    Absent(u16, u16),
    Unknown(u16, u16),
    ApiUnavailable(String),
    PermissionDenied(u16, u16),
    Timeout,
    Io(String),
    Protocol(String),
    Unsupported(&'static str),
}

/// The client-facing kind of a HID failure.
pub open spec fn hid_error_kind(e: HidError) -> ErrorKind {
    match e {
        HidError::Absent(..) => ErrorKind::DeviceAbsent,
        HidError::Unknown(..) => ErrorKind::NotFound,
        HidError::PermissionDenied(..) => ErrorKind::PermissionDenied,
        HidError::Unsupported(_) => ErrorKind::BadRequest,
        _ => ErrorKind::Internal,
    }
}

impl HidError {
    /// Whether the device answered at all.
    pub fn is_absent(&self) -> (r: bool)
        ensures
            r == (self is Absent || self is Unknown),
    {
        match self {
            HidError::Absent(..) | HidError::Unknown(..) => true,
            _ => false,
        }
    }

    /// How this failure is classified on the wire.
    pub fn kind(&self) -> (k: ErrorKind)
        ensures
            k == hid_error_kind(*self),
    {
        match self {
            HidError::Absent(..) => ErrorKind::DeviceAbsent,
            HidError::Unknown(..) => ErrorKind::NotFound,
            HidError::PermissionDenied(..) => ErrorKind::PermissionDenied,
            HidError::Unsupported(_) => ErrorKind::BadRequest,
            _ => ErrorKind::Internal,
        }
    }
}

/// The error reported when the `hidapi` handle's lock is poisoned.
pub fn poisoned() -> (e: HidError)
    ensures
        e matches HidError::Io(m) && m@ == "hidapi lock poisoned"@,
{
    HidError::Io(String::from_str("hidapi lock poisoned"))
}

/// `c` with ASCII upper-case letters folded to lower case.
pub open spec fn ascii_lower(c: char) -> char {
    if 'A' <= c <= 'Z' {
        ((c as u32) + 32) as char
    } else {
        c
    }
}

/// Whether `needle` occurs in `hay` once ASCII case is folded.
pub open spec fn contains_folded(hay: Seq<char>, needle: Seq<char>) -> bool {
    exists|i: int|
        0 <= i && i + needle.len() <= hay.len() && #[trigger] matches_at(hay, needle, i)
}

pub open spec fn matches_at(hay: Seq<char>, needle: Seq<char>, i: int) -> bool {
    forall|k: int| 0 <= k < needle.len() ==> ascii_lower(#[trigger] hay[i + k]) == needle[k]
}

fn folds_to(c: char, n: char) -> (r: bool)
    requires
        !('A' <= n <= 'Z'),
    ensures
        r == (ascii_lower(c) == n),
{
    if 'A' <= c && c <= 'Z' {
        (c as u32) + 32 == (n as u32)
    } else {
        c == n
    }
}

fn matches_here(hay: &str, needle: &str, i: usize) -> (r: bool)
    requires
        i + needle@.len() <= hay@.len(),
        forall|k: int| 0 <= k < needle@.len() ==> !('A' <= #[trigger] needle@[k] <= 'Z'),
    ensures
        r == matches_at(hay@, needle@, i as int),
{
    let n = needle.unicode_len();
    let hl = hay.unicode_len();
    let mut k: usize = 0;
    while k < n
        invariant
            n == needle@.len(),
            hl == hay@.len(),
            i + n <= hay@.len(),
            forall|j: int| 0 <= j < n ==> !('A' <= #[trigger] needle@[j] <= 'Z'),
            k <= n,
            forall|j: int| 0 <= j < k ==> ascii_lower(#[trigger] hay@[i + j]) == needle@[j],
        decreases n - k,
    {
        let nc = needle.get_char(k);
        assert(!('A' <= needle@[k as int] <= 'Z'));
        if !folds_to(hay.get_char(i + k), nc) {
            return false;
        }
        k = k + 1;
    }
    true
}

fn contains_ignore_case(hay: &str, needle: &str) -> (r: bool)
    requires
        forall|k: int| 0 <= k < needle@.len() ==> !('A' <= #[trigger] needle@[k] <= 'Z'),
    ensures
        r == contains_folded(hay@, needle@),
{
    let h = hay.unicode_len();
    let n = needle.unicode_len();
    if n > h {
        return false;
    }
    let mut i: usize = 0;
    while i <= h - n
        invariant
            h == hay@.len(),
            n == needle@.len(),
            n <= h,
            i <= h - n + 1,
            forall|k: int| 0 <= k < n ==> !('A' <= #[trigger] needle@[k] <= 'Z'),
            forall|j: int| 0 <= j < i ==> !#[trigger] matches_at(hay@, needle@, j),
        decreases h - i,
    {
        if matches_here(hay, needle, i) {
            return true;
        }
        i = i + 1;
    }
    false
}

/// How a failed open is reported: `hidapi` gives one opaque error, so its
/// message is all there is to go on. One that mentions permission or access
/// (in any case) is a permission problem; anything else means the device
/// is gone.
pub fn classify_open(msg: &str, id: DeviceId) -> (e: HidError)
    ensures
        e == (if contains_folded(msg@, "permission"@) || contains_folded(msg@, "access"@) {
            HidError::PermissionDenied(id.vendor_id, id.product_id)
        } else {
            HidError::Absent(id.vendor_id, id.product_id)
        }),
{
    proof {
        reveal_strlit("permission");
        reveal_strlit("access");
    }
    if contains_ignore_case(msg, "permission") || contains_ignore_case(msg, "access") {
        HidError::PermissionDenied(id.vendor_id, id.product_id)
    } else {
        HidError::Absent(id.vendor_id, id.product_id)
    }
}

} // verus!

verus! {

/// The human-readable text of a HID failure.
pub open spec fn hid_error_message(e: HidError) -> Seq<char> {
    match e {
        HidError::Absent(v, p) => "device "@ + hex4(v) + ":"@ + hex4(p) + " is not connected"@,
        HidError::Unknown(v, p) => "no driver for device "@ + hex4(v) + ":"@ + hex4(p),
        HidError::ApiUnavailable(m) => "hidapi unavailable: "@ + m@,
        HidError::PermissionDenied(v, p) => "permission denied opening "@ + hex4(v) + ":"@ + hex4(
            p,
        ) + "; the udev rule is probably missing"@,
        HidError::Timeout => "HID read timed out"@,
        HidError::Io(m) => "HID transfer failed: "@ + m@,
        HidError::Protocol(m) => "unexpected response from device: "@ + m@,
        HidError::Unsupported(what) => "device does not support "@ + what@,
    }
}

fn push_pair(s: &mut String, v: u16, p: u16)
    ensures
        final(s)@ == old(s)@ + hex4(v) + ":"@ + hex4(p),
{
    push_hex4(s, v);
    s.append(":");
    push_hex4(s, p);
    assert(final(s)@ =~= old(s)@ + hex4(v) + ":"@ + hex4(p));
}

impl HidError {
    /// What the failure says to a person.
    pub fn message(&self) -> (r: String)
        ensures
            r@ == hid_error_message(*self),
    {
        match self {
            HidError::Absent(v, p) => {
                let mut s = String::from_str("device ");
                push_pair(&mut s, *v, *p);
                s.append(" is not connected");
                s
            },
            HidError::Unknown(v, p) => {
                let mut s = String::from_str("no driver for device ");
                push_pair(&mut s, *v, *p);
                s
            },
            HidError::ApiUnavailable(m) => {
                let mut s = String::from_str("hidapi unavailable: ");
                s.append(m.as_str());
                s
            },
            HidError::PermissionDenied(v, p) => {
                let mut s = String::from_str("permission denied opening ");
                push_pair(&mut s, *v, *p);
                s.append("; the udev rule is probably missing");
                s
            },
            HidError::Timeout => String::from_str("HID read timed out"),
            HidError::Io(m) => {
                let mut s = String::from_str("HID transfer failed: ");
                s.append(m.as_str());
                s
            },
            HidError::Protocol(m) => {
                let mut s = String::from_str("unexpected response from device: ");
                s.append(m.as_str());
                s
            },
            HidError::Unsupported(what) => {
                let mut s = String::from_str("device does not support ");
                s.append(what);
                s
            },
        }
    }
}

} // verus!
