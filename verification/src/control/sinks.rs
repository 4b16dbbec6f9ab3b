//! The managed virtual sinks: whether both exist, and which to create.

use crate::proto::{SinkInfo, CHAT_SINK, GAME_SINK};
use crate::text::str_eq;
use vstd::prelude::*;
use vstd::string::*;

verus! {

pub open spec fn names_of(v: Seq<String>) -> Seq<Seq<char>> {
    v.map_values(|s: String| s@)
}

pub fn has_name(names: &Vec<String>, name: &str) -> (r: bool)
    ensures
        r == names_of(names@).contains(name@),
{
    let mut i: usize = 0;
    while i < names.len()
        invariant
            i <= names@.len(),
            forall|k: int| 0 <= k < i ==> names@[k]@ != name@,
        decreases names@.len() - i,
    {
        if str_eq(names[i].as_str(), name) {
            assert(names_of(names@)[i as int] == name@);
            return true;
        }
        i = i + 1;
    }
    proof {
        if names_of(names@).contains(name@) {
            let k = choose|k: int| 0 <= k < names_of(names@).len() && names_of(names@)[k] == name@;
            assert(names@[k]@ == name@);
        }
    }
    false
}

/// Whether both managed sinks are among `sinks`.
pub fn sinks_ready(sinks: &Vec<String>) -> (r: bool)
    ensures
        r == (names_of(sinks@).contains(GAME_SINK@) && names_of(sinks@).contains(CHAT_SINK@)),
{
    has_name(sinks, GAME_SINK) && has_name(sinks, CHAT_SINK)
}

/// The managed sinks to create: those missing from `existing`, game first.
///
/// An existing sink is adopted, never deleted and recreated, because
/// deleting one drops every stream routed to it.
pub fn missing_sinks(existing: &Vec<String>) -> (r: Vec<&'static str>)
    ensures
        r@.len() <= 2,
        forall|i: int| 0 <= i < r@.len() ==> !names_of(existing@).contains(#[trigger] r@[i]@),
        !names_of(existing@).contains(GAME_SINK@) ==> r@.len() > 0 && r@[0]@ == GAME_SINK@,
        !names_of(existing@).contains(CHAT_SINK@) ==> r@.len() > 0 && r@.last()@ == CHAT_SINK@,
        names_of(existing@).contains(GAME_SINK@) && names_of(existing@).contains(CHAT_SINK@) ==> r@.len() == 0,
        forall|i: int| 0 <= i < r@.len() ==> (#[trigger] r@[i]@ == GAME_SINK@ || r@[i]@ == CHAT_SINK@),
{
    let mut r: Vec<&'static str> = Vec::new();
    if !has_name(existing, GAME_SINK) {
        r.push(GAME_SINK);
    }
    if !has_name(existing, CHAT_SINK) {
        r.push(CHAT_SINK);
    }
    r
}

/// The sinks the daemon manages, in the order listed.
pub open spec fn managed_spec(s: Seq<SinkInfo>) -> Seq<SinkInfo>
    decreases s.len(),
{
    if s.len() == 0 {
        s
    } else if s.last().managed {
        managed_spec(s.drop_last()).push(s.last())
    } else {
        managed_spec(s.drop_last())
    }
}

/// What `sink list-custom` answers: only the managed sinks.
pub fn managed_only(sinks: Vec<SinkInfo>) -> (r: Vec<SinkInfo>)
    ensures
        r@ == managed_spec(sinks@),
{
    let ghost s = sinks@;
    let mut rest = sinks;
    let total = rest.len();
    let mut out: Vec<SinkInfo> = Vec::new();
    let mut taken: usize = 0;
    while rest.len() > 0
        invariant
            taken + rest@.len() == s.len(),
            s.len() == total,
            rest@ == s.skip(taken as int),
            out@ == managed_spec(s.take(taken as int)),
        decreases rest@.len(),
    {
        let item = rest.remove(0);
        assert(item == s[taken as int]);
        assert(s.take(taken as int + 1).drop_last() =~= s.take(taken as int));
        assert(s.take(taken as int + 1).last() == item);
        assert(rest@ =~= s.skip(taken as int + 1));
        if item.managed {
            out.push(item);
        }
        taken = taken + 1;
    }
    assert(s.take(s.len() as int) =~= s);
    out
}

/// A volume as the backend takes it: at most 100 percent.
pub fn clamp_percent(pct: u8) -> (r: u8)
    ensures
        r == if pct < 100 {
            pct
        } else {
            100
        },
{
    if pct < 100 {
        pct
    } else {
        100
    }
}

} // verus!
