//! What a supported headset model can do, and the HID channel it talks over.

use crate::hid::error::HidError;
use crate::proto::{Capability, DeviceId};
use vstd::prelude::*;

verus! {

/// Rust's `/` on signed integers: the quotient rounded toward zero.
pub open spec fn trunc_div(n: int, d: int) -> int {
    let q = (if n >= 0 { n } else { -n }) / (if d >= 0 { d } else { -d });
    if (n >= 0) == (d >= 0) || n == 0 { q } else { -q }
}

/// Linear rescale of `x` from `[in_min, in_max]` onto `[out_min, out_max]`,
/// yielding `out_min` when the input range is empty.
pub open spec fn map_spec(x: int, in_min: int, in_max: int, out_min: int, out_max: int) -> int {
    if in_max == in_min {
        out_min
    } else {
        trunc_div((x - in_min) * (out_max - out_min), in_max - in_min) + out_min
    }
}

pub open spec fn fits_i32(v: int) -> bool {
    i32::MIN <= v <= i32::MAX
}

/// Linear rescale, saturating when the input range is empty.
pub fn map(x: i32, in_min: i32, in_max: i32, out_min: i32, out_max: i32) -> (r: i32)
    requires
        in_max != in_min ==> {
            &&& fits_i32(x - in_min)
            &&& fits_i32(out_max - out_min)
            &&& fits_i32((x - in_min) * (out_max - out_min))
            &&& fits_i32(in_max - in_min)
            &&& fits_i32(map_spec(x as int, in_min as int, in_max as int, out_min as int, out_max as int))
        },
    ensures
        r == map_spec(x as int, in_min as int, in_max as int, out_min as int, out_max as int),
{
    if in_max == in_min {
        return out_min;
    }
    let n: i64 = (x as i64 - in_min as i64) * (out_max as i64 - out_min as i64);
    let d: i64 = in_max as i64 - in_min as i64;
    let an: i64 = if n >= 0 { n } else { -n };
    let ad: i64 = if d >= 0 { d } else { -d };
    let q: i64 = an / ad;
    let signed: i64 = if (n >= 0) == (d >= 0) || n == 0 { q } else { -q };
    proof {
        assert(trunc_div(n as int, d as int) == signed);
    }
    (signed + out_min as i64) as i32
}

/// `reply` laid over the start of `buf`: the bytes a read of `reply` into
/// `buf` leaves there.
pub open spec fn overlay(reply: Seq<u8>, buf: Seq<u8>) -> Seq<u8> {
    reply + buf.skip(reply.len() as int)
}

/// Byte `i` of a reply read into a zeroed buffer: the reply's byte where it
/// has one, else 0.
pub open spec fn byte_or_zero(reply: Seq<u8>, i: int) -> u8 {
    if 0 <= i < reply.len() {
        reply[i]
    } else {
        0
    }
}

/// An open HID channel to one device.
///
/// `attempted` is every report a write was asked to send, `sent` those that
/// went out, and `received` every report a read brought back, in order.
pub trait HidTransport {
    spec fn attempted(&self) -> Seq<Seq<u8>>;

    spec fn sent(&self) -> Seq<Seq<u8>>;

    spec fn received(&self) -> Seq<Seq<u8>>;

    /// Writes one report. It is attempted whatever happens, and it is sent
    /// exactly when the write succeeds.
    fn write(&mut self, data: &[u8]) -> (r: Result<(), HidError>)
        ensures
            final(self).attempted() == old(self).attempted().push(data@),
            r is Ok ==> final(self).sent() == old(self).sent().push(data@),
            r is Err ==> final(self).sent() == old(self).sent(),
            final(self).received() == old(self).received(),
    ;

    /// Reads one report into the start of `buf`, returning the byte count;
    /// the rest of `buf` is left as it was. A zero-length read is
    /// [`HidError::Timeout`], so a success is never empty, and a failed read
    /// brings nothing back.
    fn read(&mut self, buf: &mut [u8], timeout_ms: i32) -> (r: Result<usize, HidError>)
        ensures
            final(buf)@.len() == old(buf)@.len(),
            final(self).attempted() == old(self).attempted(),
            final(self).sent() == old(self).sent(),
            r matches Ok(n) ==> 0 < n <= old(buf)@.len() && final(self).received() == old(
                self,
            ).received().push(final(buf)@.take(n as int)) && final(buf)@ == overlay(
                final(buf)@.take(n as int),
                old(buf)@,
            ),
            r is Err ==> final(self).received() == old(self).received(),
    ;
}

/// Nothing was attempted, sent or read on the channel.
pub open spec fn untouched<T: HidTransport>(before: T, after: T) -> bool {
    &&& after.attempted() == before.attempted()
    &&& after.sent() == before.sent()
    &&& after.received() == before.received()
}

/// `rep` was attempted; it was sent exactly when `ok`; nothing was read.
pub open spec fn report_written<T: HidTransport>(before: T, after: T, rep: Seq<u8>, ok: bool) -> bool {
    &&& after.attempted() == before.attempted().push(rep)
    &&& ok == (after.sent() == before.sent().push(rep))
    &&& !ok ==> after.sent() == before.sent()
    &&& after.received() == before.received()
}

/// The request `req` was sent and one reply read back: the last of
/// `after.received()`.
pub open spec fn exchanged<T: HidTransport>(before: T, after: T, req: Seq<u8>) -> bool {
    &&& after.attempted() == before.attempted().push(req)
    &&& after.sent() == before.sent().push(req)
    &&& after.received().len() == before.received().len() + 1
    &&& after.received().drop_last() == before.received()
}

/// The request `req` was attempted but no reply came back: the write failed,
/// or it went out and the read failed.
pub open spec fn exchange_failed<T: HidTransport>(before: T, after: T, req: Seq<u8>) -> bool {
    &&& after.attempted() == before.attempted().push(req)
    &&& (after.sent() == before.sent() || after.sent() == before.sent().push(req))
    &&& after.received() == before.received()
}

/// A headset model: a stateless description of one device's HID protocol.
///
/// Every operation takes the transport, so a model owns no connection.
/// The spec functions describe the protocol: which report each operation
/// writes first, or `None` when the model does not support it, and what a
/// status reply says.
pub trait Headset {
    spec fn spec_id(&self) -> DeviceId;

    spec fn spec_name(&self) -> Seq<char>;

    spec fn spec_capabilities(&self) -> Seq<Capability>;

    /// The report that sets side tone to `level`.
    spec fn sidetone_report(&self, level: u8) -> Option<Seq<u8>>;

    /// The report that sets microphone volume to `level`.
    spec fn microphone_report(&self, level: u8) -> Option<Seq<u8>>;

    /// The request whose reply carries ChatMix and battery.
    spec fn status_request(&self) -> Option<Seq<u8>>;

    /// The ChatMix balance a status reply reports.
    spec fn chatmix_reading(&self, reply: Seq<u8>) -> u8;

    /// The battery charge a status reply reports, `None` for a level the
    /// model does not know.
    spec fn battery_reading(&self, reply: Seq<u8>) -> Option<u8>;

    fn id(&self) -> (r: DeviceId)
        ensures
            r == self.spec_id(),
    ;

    fn name(&self) -> (r: &str)
        ensures
            r@ == self.spec_name(),
    ;

    fn capabilities(&self) -> (r: Vec<Capability>)
        ensures
            r@ == self.spec_capabilities(),
    ;

    fn set_sidetone<T: HidTransport>(&self, t: &mut T, level: u8) -> (r: Result<(), HidError>)
        ensures
            match self.sidetone_report(level) {
                None => r == Err::<(), HidError>(HidError::Unsupported("sidetone")) && untouched(
                    *old(t),
                    *final(t),
                ),
                Some(rep) => report_written(*old(t), *final(t), rep, r is Ok),
            },
    ;

    fn set_microphone_volume<T: HidTransport>(&self, t: &mut T, level: u8) -> (r: Result<
        (),
        HidError,
    >)
        ensures
            match self.microphone_report(level) {
                None => r == Err::<(), HidError>(HidError::Unsupported("microphone volume"))
                    && untouched(*old(t), *final(t)),
                Some(rep) => report_written(*old(t), *final(t), rep, r is Ok),
            },
    ;

    /// Game/chat balance, 0 all chat to 100 all game, as the status reply
    /// reports it.
    fn read_chatmix<T: HidTransport>(&self, t: &mut T) -> (r: Result<u8, HidError>)
        ensures
            match self.status_request() {
                None => r == Err::<u8, HidError>(HidError::Unsupported("chatmix")) && untouched(
                    *old(t),
                    *final(t),
                ),
                Some(req) => (exchanged(*old(t), *final(t), req) && r == Ok::<u8, HidError>(
                    self.chatmix_reading(final(t).received().last()),
                )) || (exchange_failed(*old(t), *final(t), req) && r is Err),
            },
            r matches Ok(v) ==> v <= 100,
    ;

    /// Charge percent, 0..=100, as the status reply reports it; a level the
    /// model does not know is a protocol error.
    fn read_battery<T: HidTransport>(&self, t: &mut T) -> (r: Result<u8, HidError>)
        ensures
            match self.status_request() {
                None => r == Err::<u8, HidError>(HidError::Unsupported("battery status"))
                    && untouched(*old(t), *final(t)),
                Some(req) => (exchanged(*old(t), *final(t), req) && match self.battery_reading(
                    final(t).received().last(),
                ) {
                    Some(v) => r == Ok::<u8, HidError>(v),
                    None => r matches Err(HidError::Protocol(_)),
                }) || (exchange_failed(*old(t), *final(t), req) && r is Err),
            },
            r matches Ok(v) ==> v <= 100,
    ;
}

} // verus!
