//! Core failure taxonomy.

use crate::hid::error::{hid_error_kind, hid_error_message, HidError};
use crate::proto::{retryable_spec, wire_view, ErrorKind, PwError};
use crate::text::{debug_quote, debug_quoted};
use vstd::prelude::*;
use vstd::string::*;

verus! {

#[derive(Debug, Clone, PartialEq, Eq)]
pub enum CoreError {
    /// A backend or HID failure that already carries its own classification.
    Wire(PwError),
    PresetNotFound(String),
    NotFoundUserDevice(String),
    BuiltinPreset(String),
    NodeNotFound(String),
    Invalid(String),
    Io { path: String, source: String },
    Internal(String),
}

pub open spec fn core_error_kind(e: CoreError) -> ErrorKind {
    match e {
        CoreError::Wire(w) => w.kind,
        CoreError::PresetNotFound(_) | CoreError::NotFoundUserDevice(_) | CoreError::NodeNotFound(
            _,
        ) => ErrorKind::NotFound,
        CoreError::BuiltinPreset(_) | CoreError::Invalid(_) => ErrorKind::BadRequest,
        CoreError::Io { .. } | CoreError::Internal(_) => ErrorKind::Internal,
    }
}

pub open spec fn core_error_message(e: CoreError) -> Seq<char> {
    match e {
        CoreError::Wire(w) => w.msg@,
        CoreError::PresetNotFound(n) => "preset "@ + debug_quoted(n@) + " not found"@,
        CoreError::NotFoundUserDevice(n) => "user device "@ + debug_quoted(n@) + " not found"@,
        CoreError::BuiltinPreset(n) => "preset "@ + debug_quoted(n@)
            + " is built in and cannot be modified"@,
        CoreError::NodeNotFound(n) => "node "@ + debug_quoted(n@) + " not found in the graph"@,
        CoreError::Invalid(m) => m@,
        CoreError::Io { path, source } => path@ + ": "@ + source@,
        CoreError::Internal(m) => m@,
    }
}

fn quoted_between(before: &str, name: &String, after: &str) -> (r: String)
    ensures
        r@ == before@ + debug_quoted(name@) + after@,
{
    let mut s = String::from_str(before);
    let q = debug_quote(name.as_str());
    s.append(q.as_str());
    s.append(after);
    s
}

impl CoreError {
    /// What the failure says to a person.
    pub fn message(&self) -> (r: String)
        ensures
            r@ == core_error_message(*self),
    {
        match self {
            CoreError::Wire(w) => w.msg.clone(),
            CoreError::PresetNotFound(n) => quoted_between("preset ", n, " not found"),
            CoreError::NotFoundUserDevice(n) => quoted_between("user device ", n, " not found"),
            CoreError::BuiltinPreset(n) => quoted_between(
                "preset ",
                n,
                " is built in and cannot be modified",
            ),
            CoreError::NodeNotFound(n) => quoted_between("node ", n, " not found in the graph"),
            CoreError::Invalid(m) => m.clone(),
            CoreError::Io { path, source } => {
                let mut s = path.clone();
                s.append(": ");
                s.append(source.as_str());
                s
            },
            CoreError::Internal(m) => m.clone(),
        }
    }

    /// The error as it reaches a client.
    pub fn to_wire(&self) -> (w: PwError)
        ensures
            w.kind == core_error_kind(*self),
            w.msg@ == core_error_message(*self),
            match *self {
                CoreError::Wire(inner) => wire_view(w) == wire_view(inner),
                _ => w.retryable == retryable_spec(w.kind) && w.supported is None,
            },
    {
        if let CoreError::Wire(inner) = self {
            return PwError {
                kind: inner.kind,
                msg: String::from_str(inner.msg.as_str()),
                retryable: inner.retryable,
                supported: inner.supported,
            };
        }
        let kind = match self {
            CoreError::Wire(w) => w.kind,
            CoreError::PresetNotFound(_)
            | CoreError::NotFoundUserDevice(_)
            | CoreError::NodeNotFound(_) => ErrorKind::NotFound,
            CoreError::BuiltinPreset(_) | CoreError::Invalid(_) => ErrorKind::BadRequest,
            CoreError::Io { .. } | CoreError::Internal(_) => ErrorKind::Internal,
        };
        PwError::new(kind, self.message())
    }

    /// A HID failure, carried with its own classification.
    pub fn from_hid(e: HidError) -> (r: CoreError)
        ensures
            r matches CoreError::Wire(w) && w.kind == hid_error_kind(e) && w.msg@
                == hid_error_message(e),
    {
        let kind = e.kind();
        let msg = e.message();
        CoreError::Wire(PwError::new(kind, msg))
    }
}

} // verus!
