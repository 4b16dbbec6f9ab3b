//! Validation of user-defined devices before they are stored.

use crate::hid::error::HidError;
use crate::proto::{valid_hex_id, is_valid_hex_id, UserDevice};
use crate::text::{blank, debug_quote, debug_quoted, is_blank};
use vstd::prelude::*;
use vstd::string::*;

verus! {

pub open spec fn id_ok(id: Option<String>) -> bool {
    match id {
        Some(s) => valid_hex_id(s@),
        None => true,
    }
}

/// The message for a rejected id.
pub open spec fn invalid_id_message(id: Seq<char>) -> Seq<char> {
    "invalid hex id "@ + debug_quoted(id)
}

/// Why `d` cannot be stored, or `None` when it can: an empty name first,
/// then a bad vendor id, then a bad product id.
pub open spec fn validation_error(d: UserDevice) -> Option<Seq<char>> {
    if is_blank(d.name@) {
        Some("device name is empty"@)
    } else if !id_ok(d.vendor_id) {
        Some(invalid_id_message(d.vendor_id->0@))
    } else if !id_ok(d.product_id) {
        Some(invalid_id_message(d.product_id->0@))
    } else {
        None
    }
}

/// `r` is the refusal of `d`.
pub open spec fn reports(d: UserDevice, r: Result<(), HidError>) -> bool {
    match validation_error(d) {
        Some(msg) => r matches Err(HidError::Protocol(m)) && m@ == msg,
        None => false,
    }
}

/// Reject ids that are not exactly 4 hex digits, and empty names.
///
/// Security boundary: these values reach a root-owned udev rules file, where
/// anything else could inject directives such as `RUN+=`.
pub fn validate(device: &UserDevice) -> (r: Result<(), HidError>)
    ensures
        match validation_error(*device) {
            None => r is Ok,
            Some(msg) => r matches Err(HidError::Protocol(m)) && m@ == msg,
        },
{
    if blank(device.name.as_str()) {
        return Err(HidError::Protocol(String::from_str("device name is empty")));
    }
    if let Some(id) = &device.vendor_id {
        if !is_valid_hex_id(id.as_str()) {
            let mut m = String::from_str("invalid hex id ");
            let q = debug_quote(id.as_str());
            m.append(q.as_str());
            return Err(HidError::Protocol(m));
        }
    }
    if let Some(id) = &device.product_id {
        if !is_valid_hex_id(id.as_str()) {
            let mut m = String::from_str("invalid hex id ");
            let q = debug_quote(id.as_str());
            m.append(q.as_str());
            return Err(HidError::Protocol(m));
        }
    }
    Ok(())
}

/// Every device in `devices` passes [`validate`]; the first failure is
/// reported. A list is stored only when this succeeds.
pub fn validate_all(devices: &Vec<UserDevice>) -> (r: Result<(), HidError>)
    ensures
        r is Ok <==> forall|i: int|
            0 <= i < devices@.len() ==> (#[trigger] validation_error(devices@[i])) is None,
        r is Err ==> exists|i: int|
            0 <= i < devices@.len() && (forall|j: int|
                0 <= j < i ==> (#[trigger] validation_error(devices@[j])) is None) && reports(
                #[trigger] devices@[i],
                r,
            ),
{
    let mut i: usize = 0;
    while i < devices.len()
        invariant
            i <= devices@.len(),
            forall|j: int| 0 <= j < i ==> (#[trigger] validation_error(devices@[j])) is None,
        decreases devices@.len() - i,
    {
        let r = validate(&devices[i]);
        if r.is_err() {
            assert(validation_error(devices@[i as int]) is Some);
            return r;
        }
        i = i + 1;
    }
    Ok(())
}

} // verus!
