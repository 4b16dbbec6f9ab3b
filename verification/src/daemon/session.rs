//! What one client connection decides, frame by frame.

use crate::events::{event_name, Event};
use crate::proto::{
    retryable_spec, version_mismatch_message, version_supported, ErrorKind, HelloReply, PwError,
    Request, Response, PROTO_MAX, PROTO_MIN,
};
use crate::text::str_eq;
use vstd::prelude::*;
use vstd::string::*;

verus! {

/// Which events a session asked for; `None` until it subscribes.
#[derive(Debug, Default)]
pub struct Subscription(pub Option<Vec<String>>);

pub open spec fn wants_spec(names: Option<Seq<Seq<char>>>, event: Seq<char>) -> bool {
    match names {
        None => false,
        Some(v) => v.contains("*"@) || v.contains(event),
    }
}

/// A subscribed name covers an event when it is `*` or the event's name.
pub open spec fn matches_name(n: Seq<char>, event: Seq<char>) -> bool {
    n == "*"@ || n == event
}

pub open spec fn strings_view(v: Seq<String>) -> Seq<Seq<char>> {
    v.map_values(|s: String| s@)
}

pub open spec fn names_view(v: Option<Vec<String>>) -> Option<Seq<Seq<char>>> {
    match v {
        None => None,
        Some(v) => Some(strings_view(v@)),
    }
}

impl Subscription {
    /// Whether `event` is forwarded: a subscription matches by exact name,
    /// or with `*`.
    pub fn wants<F>(&self, event: &Event<F>) -> (r: bool)
        ensures
            r == wants_spec(names_view(self.0), event_name(*event)),
    {
        match &self.0 {
            None => false,
            Some(names) => {
                let name = event.name();
                let mut i: usize = 0;
                while i < names.len()
                    invariant
                        i <= names@.len(),
                        self.0 == Some(*names),
                        name@ == event_name(*event),
                        forall|k: int| 0 <= k < i ==> !(#[trigger] names@[k]@ == "*"@ || names@[k]@
                            == name@),
                    decreases names@.len() - i,
                {
                    if str_eq(names[i].as_str(), "*") || str_eq(names[i].as_str(), name) {
                        proof {
                            let v = strings_view(names@);
                            assert(v[i as int] == names@[i as int]@);
                            if v[i as int] == "*"@ {
                                assert(v.contains("*"@));
                            } else {
                                assert(v.contains(event_name(*event)));
                            }
                            assert(v.len() == names@.len());
                            assert(names_view(self.0) == Some(v));
                        }
                        return true;
                    }
                    i = i + 1;
                }
                proof {
                    let v = strings_view(names@);
                    assert forall|k: int| 0 <= k < v.len() implies !matches_name(#[trigger] v[k], name@) by {
                        assert(v[k] == names@[k]@);
                    }
                    if v.contains("*"@) {
                        let k = choose|k: int| 0 <= k < v.len() && v[k] == "*"@;
                        assert(matches_name(v[k], name@));
                    }
                    if v.contains(name@) {
                        let k = choose|k: int| 0 <= k < v.len() && v[k] == name@;
                        assert(matches_name(v[k], name@));
                    }
                }
                false
            },
        }
    }

    /// Replace the subscription.
    pub fn subscribe(&mut self, events: Vec<String>)
        ensures
            final(self).0 == Some(events),
    {
        self.0 = Some(events);
    }
}

/// The refusal of a peer outside this build's protocol range: it carries
/// the range, and retrying will not help.
pub open spec fn is_version_mismatch(e: PwError) -> bool {
    &&& e.kind == ErrorKind::VersionMismatch
    &&& e.msg@ == version_mismatch_message((PROTO_MIN, PROTO_MAX))
    &&& !e.retryable
    &&& e.supported == Some((PROTO_MIN, PROTO_MAX))
}

/// Answer a hello from a client speaking `proto`: this daemon's version,
/// the supported range and its capabilities, or a version mismatch when the
/// client's version is outside the range.
pub fn hello(proto: u32, version: &str) -> (r: Result<HelloReply, PwError>)
    ensures
        !version_supported(proto) ==> (r matches Err(e) && is_version_mismatch(e)),
        version_supported(proto) ==> (r matches Ok(h) && h.daemon@ == version@ && h.proto == (
            PROTO_MIN,
            PROTO_MAX,
        ) && strings_view(h.caps@) == seq!["events"@, "eq"@, "chatmix"@]),
{
    if !version_supported(proto) {
        return Err(PwError::version_mismatch((PROTO_MIN, PROTO_MAX)));
    }
    let caps: Vec<String> = vec![
        String::from_str("events"),
        String::from_str("eq"),
        String::from_str("chatmix"),
    ];
    assert(strings_view(caps@) =~= seq!["events"@, "eq"@, "chatmix"@]);
    Ok(HelloReply { daemon: String::from_str(version), proto: (PROTO_MIN, PROTO_MAX), caps })
}

/// What the session layer does with a request: hello and subscribe are its
/// own and answered here; everything else goes to the core.
#[derive(Debug)]
pub enum SessionReply<F> {
    Answer(Result<Response<F>, PwError>),
    Dispatch(Request<F>),
}

pub fn handle<F>(subscription: &mut Subscription, version: &str, request: Request<F>) -> (r:
    SessionReply<F>)
    ensures
        match request {
            Request::SessionHello { proto, .. } => r matches SessionReply::Answer(a) && (
            !version_supported(proto) ==> (a matches Err(e) && is_version_mismatch(e))) && (version_supported(proto) ==> (a matches Ok(Response::Hello(h)) && h.daemon@
                == version@ && h.proto == (PROTO_MIN, PROTO_MAX))) && final(subscription).0
                == old(subscription).0,
            Request::SessionSubscribe { events } => r matches SessionReply::Answer(a) && a
                == Ok::<Response<F>, PwError>(Response::Empty) && final(subscription).0 == Some(
                events,
            ),
            other => r == SessionReply::Dispatch(other) && final(subscription).0 == old(
                subscription,
            ).0,
        },
{
    match request {
        Request::SessionHello { proto, .. } => SessionReply::Answer(
            match hello(proto, version) {
                Ok(h) => Ok(Response::Hello(h)),
                Err(e) => Err(e),
            },
        ),
        Request::SessionSubscribe { events } => {
            subscription.subscribe(events);
            SessionReply::Answer(Ok(Response::Empty))
        },
        other => SessionReply::Dispatch(other),
    }
}

/// What a non-empty line turned out to be.
#[derive(Debug, Clone, Copy, PartialEq, Eq, Structural)]
#[allow(inconsistent_fields)]
pub enum ParsedFrame {
    /// Not a request; `id` is the `id` field when the line was JSON whose
    /// `id` is an unsigned integer.
    Malformed { id: Option<u64> },
    Request { v: u32, id: u32 },
}

/// What the session does with one line.
#[derive(Debug, Clone, Copy, PartialEq, Eq, Structural)]
pub enum SessionAction {
    /// An empty line: ignored.
    Skip,
    /// Answer with an error and keep the session.
    Reject { id: u32, kind: ErrorKind },
    /// Answer with an error, then close the session.
    RejectAndClose { id: u32, kind: ErrorKind },
    /// Hand the request to the dispatcher and answer with its reply.
    Dispatch { id: u32 },
}

/// The low 32 bits of an id, as `as u32` keeps them.
pub open spec fn low32(v: u64) -> u32 {
    (v % 0x1_0000_0000) as u32
}

/// The rule for one line: empty lines are ignored; over the rate cap the
/// session is refused and closed (id 0, no id is known yet); a malformed
/// frame is answered with the id it carried, or 0; a version outside the
/// supported range closes the session; anything else is dispatched.
pub open spec fn line_action(empty: bool, allowed: bool, parsed: ParsedFrame) -> SessionAction {
    if empty {
        SessionAction::Skip
    } else if !allowed {
        SessionAction::RejectAndClose { id: 0, kind: ErrorKind::BadRequest }
    } else {
        match parsed {
            ParsedFrame::Malformed { id } => SessionAction::Reject {
                id: match id {
                    Some(v) => low32(v),
                    None => 0,
                },
                kind: ErrorKind::BadRequest,
            },
            ParsedFrame::Request { v, id } => if PROTO_MIN <= v && v <= PROTO_MAX {
                SessionAction::Dispatch { id }
            } else {
                SessionAction::RejectAndClose { id, kind: ErrorKind::VersionMismatch }
            },
        }
    }
}

pub fn on_line(empty: bool, allowed: bool, parsed: ParsedFrame) -> (r: SessionAction)
    ensures
        r == line_action(empty, allowed, parsed),
{
    if empty {
        return SessionAction::Skip;
    }
    if !allowed {
        return SessionAction::RejectAndClose { id: 0, kind: ErrorKind::BadRequest };
    }
    match parsed {
        ParsedFrame::Malformed { id } => {
            let id: u32 = match id {
                Some(v) => {
                    let low = v % 0x1_0000_0000;
                    low as u32
                },
                None => 0,
            };
            SessionAction::Reject { id, kind: ErrorKind::BadRequest }
        },
        ParsedFrame::Request { v, id } => if version_supported(v) {
            SessionAction::Dispatch { id }
        } else {
            SessionAction::RejectAndClose { id, kind: ErrorKind::VersionMismatch }
        },
    }
}

/// The `id` field of `line` read as JSON, when the line is a JSON object
/// whose `id` is an unsigned integer that fits in 64 bits.
pub uninterp spec fn json_frame_id(line: Seq<u8>) -> Option<u64>;

/// Reads the `id` of a line that is not a request frame, so that the error
/// can still be matched to its request.
///
/// Trusted: `serde_json::from_slice::<serde_json::Value>`, then
/// `Value::get("id")` and `Value::as_u64`. Their result is named, as a
/// function of the line's bytes alone; what JSON they accept is left to
/// serde_json.
#[verifier::external_body]
fn frame_id(line: &[u8]) -> (r: Option<u64>)
    ensures
        r == json_frame_id(line@),
{
    match serde_json::from_slice::<serde_json::Value>(line) {
        Ok(v) => match v.get("id") {
            Some(i) => i.as_u64(),
            None => None,
        },
        Err(_) => None,
    }
}

/// What the session does with one raw line. `request` is the frame's
/// version and id when the line parsed as a request frame, `None` when it
/// did not; only then, and only for a non-empty line under the rate cap, is
/// the id read back out of the line.
pub fn line_step(line: &[u8], allowed: bool, request: Option<(u32, u32)>) -> (r: SessionAction)
    ensures
        r == line_action(
            line@.len() == 0,
            allowed,
            match request {
                Some((v, id)) => ParsedFrame::Request { v, id },
                None => ParsedFrame::Malformed { id: json_frame_id(line@) },
            },
        ),
{
    if line.len() == 0 {
        return SessionAction::Skip;
    }
    if !allowed {
        return SessionAction::RejectAndClose { id: 0, kind: ErrorKind::BadRequest };
    }
    let parsed = match request {
        Some((v, id)) => ParsedFrame::Request { v, id },
        None => ParsedFrame::Malformed { id: frame_id(line) },
    };
    on_line(false, true, parsed)
}

/// The error a refusing action answers with, `parse_error` being what the
/// JSON parser said of a malformed frame: over the rate cap the limit's
/// message, a malformed frame the parser's message, a version outside the
/// range the mismatch carrying the range; nothing for the other actions.
pub fn action_error(action: SessionAction, parse_error: &str) -> (r: Option<PwError>)
    ensures
        match action {
            SessionAction::Skip | SessionAction::Dispatch { .. } => r is None,
            SessionAction::RejectAndClose { kind: ErrorKind::VersionMismatch, .. } => r matches Some(
                e,
            ) && is_version_mismatch(e),
            SessionAction::RejectAndClose { kind, .. } => r matches Some(e) && e.kind == kind
                && e.msg@ == "request rate limit exceeded"@ && e.retryable == retryable_spec(kind)
                && e.supported is None,
            SessionAction::Reject { kind, .. } => r matches Some(e) && e.kind == kind && e.msg@
                == parse_error@ && e.retryable == retryable_spec(kind) && e.supported is None,
        },
{
    match action {
        SessionAction::Skip | SessionAction::Dispatch { .. } => None,
        SessionAction::RejectAndClose { kind: ErrorKind::VersionMismatch, .. } => Some(
            PwError::version_mismatch((PROTO_MIN, PROTO_MAX)),
        ),
        SessionAction::RejectAndClose { kind, .. } => Some(
            PwError::new(kind, String::from_str("request rate limit exceeded")),
        ),
        SessionAction::Reject { kind, .. } => Some(PwError::new(kind, String::from_str(parse_error))),
    }
}

/// A response always carries the id of the request it answers.
pub proof fn lemma_reply_echoes_id(v: u32, id: u32)
    requires
        PROTO_MIN <= v <= PROTO_MAX,
    ensures
        line_action(false, true, ParsedFrame::Request { v, id }) == (SessionAction::Dispatch { id }),
{
}

} // verus!
