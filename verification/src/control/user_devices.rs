//! The user's hand-described devices: names are unique, so adding a second
//! device under a name is refused, and removing an unknown name is an error.

use crate::control::error::CoreError;
use crate::proto::UserDevice;
use crate::text::{debug_quote, debug_quoted, str_eq};
use vstd::prelude::*;
use vstd::string::*;

verus! {

pub open spec fn has_device_named(s: Seq<UserDevice>, name: Seq<char>) -> bool {
    exists|i: int| 0 <= i < s.len() && #[trigger] s[i].name@ == name
}

/// `s` without the devices called `name`, the others in order.
pub open spec fn without_device(s: Seq<UserDevice>, name: Seq<char>) -> Seq<UserDevice>
    decreases s.len(),
{
    if s.len() == 0 {
        s
    } else {
        let rest = without_device(s.drop_last(), name);
        if s.last().name@ == name {
            rest
        } else {
            rest.push(s.last())
        }
    }
}

pub open spec fn duplicate_message(name: Seq<char>) -> Seq<char> {
    "a user device named "@ + debug_quoted(name) + " already exists"@
}

fn find_device(devices: &Vec<UserDevice>, name: &str) -> (r: bool)
    ensures
        r == has_device_named(devices@, name@),
{
    let mut i: usize = 0;
    while i < devices.len()
        invariant
            i <= devices@.len(),
            forall|k: int| 0 <= k < i ==> #[trigger] devices@[k].name@ != name@,
        decreases devices@.len() - i,
    {
        if str_eq(devices[i].name.as_str(), name) {
            return true;
        }
        i = i + 1;
    }
    false
}

/// Adds `device` unless one of that name is already known.
pub fn add_user_device(devices: &mut Vec<UserDevice>, device: UserDevice) -> (r: Result<
    (),
    CoreError,
>)
    ensures
        has_device_named(old(devices)@, device.name@) ==> (r matches Err(CoreError::Invalid(m))
            && m@ == duplicate_message(device.name@)) && final(devices)@ == old(devices)@,
        !has_device_named(old(devices)@, device.name@) ==> r is Ok && final(devices)@ == old(
            devices,
        )@.push(device),
{
    if find_device(devices, device.name.as_str()) {
        let mut m = String::from_str("a user device named ");
        let q = debug_quote(device.name.as_str());
        m.append(q.as_str());
        m.append(" already exists");
        return Err(CoreError::Invalid(m));
    }
    devices.push(device);
    Ok(())
}

/// Removes every device called `name`; `NotFoundUserDevice` when there is
/// none.
pub fn remove_user_device(devices: &mut Vec<UserDevice>, name: &str) -> (r: Result<(), CoreError>)
    ensures
        !has_device_named(old(devices)@, name@) ==> (r matches Err(
            CoreError::NotFoundUserDevice(n),
        ) && n@ == name@) && final(devices)@ == old(devices)@,
        has_device_named(old(devices)@, name@) ==> r is Ok && final(devices)@ == without_device(
            old(devices)@,
            name@,
        ),
{
    if !find_device(devices, name) {
        return Err(CoreError::NotFoundUserDevice(String::from_str(name)));
    }
    let mut kept: Vec<UserDevice> = Vec::new();
    let mut old_list: Vec<UserDevice> = Vec::new();
    std::mem::swap(&mut old_list, devices);
    let ghost s = old_list@;
    let mut rest = old_list;
    let total = rest.len();
    let ghost n = s.len();
    // Move the devices out front to back, keeping the others in order.
    let mut taken: usize = 0;
    while rest.len() > 0
        invariant
            taken + rest@.len() == n,
            rest@ == s.skip(taken as int),
            kept@ == without_device(s.take(taken as int), name@),
            n == s.len(),
            n == total,
        decreases rest@.len(),
    {
        let d = rest.remove(0);
        assert(d == s[taken as int]);
        assert(s.take(taken as int + 1).drop_last() =~= s.take(taken as int));
        assert(s.take(taken as int + 1).last() == d);
        assert(rest@ =~= s.skip(taken as int + 1));
        if !str_eq(d.name.as_str(), name) {
            kept.push(d);
        }
        taken = taken + 1;
    }
    assert(s.take(n as int) =~= s);
    *devices = kept;
    Ok(())
}

/// After a removal no device of that name is left, and every other device
/// stays, in order.
pub proof fn lemma_removed_device_is_gone(s: Seq<UserDevice>, name: Seq<char>)
    ensures
        !has_device_named(without_device(s, name), name),
        forall|i: int|
            0 <= i < without_device(s, name).len() ==> s.contains(
                #[trigger] without_device(s, name)[i],
            ),
    decreases s.len(),
{
    if s.len() > 0 {
        lemma_removed_device_is_gone(s.drop_last(), name);
        let rest = without_device(s.drop_last(), name);
        let w = without_device(s, name);
        assert forall|i: int| 0 <= i < w.len() implies #[trigger] w[i].name@ != name && s.contains(w[i]) by {
            if i < rest.len() {
                assert(w[i] == rest[i]);
                assert(s.drop_last().contains(rest[i]));
                let k = choose|k: int| 0 <= k < s.drop_last().len() && s.drop_last()[k] == rest[i];
                assert(s[k] == rest[i]);
            } else {
                assert(w[i] == s.last());
                assert(s[s.len() - 1] == s.last());
            }
        }
    }
}

} // verus!
