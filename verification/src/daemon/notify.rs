//! Addressing for `sd_notify` and the messages it sends.

use vstd::prelude::*;
use vstd::string::*;

verus! {

/// A leading `@` names the abstract namespace, which is addressed with a
/// leading NUL instead.
pub open spec fn notify_target_spec(path: Seq<char>) -> Seq<char> {
    if path.len() > 0 && path[0] == '@' {
        seq!['\0'] + path.drop_first()
    } else {
        path
    }
}

pub fn notify_target(path: &str) -> (r: String)
    ensures
        r@ == notify_target_spec(path@),
{
    let n = path.unicode_len();
    if n > 0 && path.get_char(0) == '@' {
        let mut r = String::from_str("\0");
        proof {
            reveal_strlit("\0");
        }
        r.append(path.substring_char(1, n));
        assert(r@ =~= notify_target_spec(path@));
        r
    } else {
        String::from_str(path)
    }
}

/// The state sent when the socket is accepting.
pub fn ready() -> (r: &'static str)
    ensures
        r@ == "READY=1"@,
{
    "READY=1"
}

/// The state sent on a planned stop.
pub fn stopping() -> (r: &'static str)
    ensures
        r@ == "STOPPING=1"@,
{
    "STOPPING=1"
}

} // verus!
