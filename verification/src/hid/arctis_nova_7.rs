//! SteelSeries Arctis Nova 7.

use crate::hid::error::HidError;
use crate::hid::headset::{
    byte_or_zero, exchange_failed, exchanged, map_spec, overlay, trunc_div, Headset, HidTransport,
};
use crate::proto::{Capability, DeviceId};
use crate::text::{decimal, push_decimal};
use vstd::prelude::*;
use vstd::string::*;

verus! {

pub const VENDOR_ID: u16 = 0x1038;

pub const VENDOR_NAME: &'static str = "SteelSeries";

pub const PRODUCT_ID: u16 = 0x2202;

pub const NAME: &'static str = "SteelSeries Arctis Nova 7";

/// Prefix requesting the status report that carries ChatMix and battery.
pub const DATA_REQUEST: [u8; 2] = [0x00, 0xb0];

/// Midpoint of the raw ChatMix scale, which runs 0..=128.
pub const CHATMIX_MIDDLE: i32 = 64;

pub const READ_TIMEOUT_MS: i32 = 1000;

/// The status request as a sequence of bytes.
pub open spec fn data_request() -> Seq<u8> {
    seq![0x00u8, 0xb0u8]
}

/// Side tone is quantised to four steps.
pub open spec fn sidetone_step(level: u8) -> u8 {
    if level <= 25 {
        0
    } else if level <= 50 {
        1
    } else if level <= 75 {
        2
    } else {
        3
    }
}

/// Microphone volume is quantised to eight steps.
pub open spec fn microphone_step(level: u8) -> u8 {
    if level / 16 < 7 {
        level / 16
    } else {
        7
    }
}

/// The balance the headset's two wheel halves describe, 0..=100, larger
/// meaning more game.
pub open spec fn chatmix_spec(game_raw: u8, chat_raw: u8) -> int {
    let game = map_spec(game_raw as int, 0, 100, 0, 64);
    let chat = map_spec(chat_raw as int, 0, 100, 0, 64);
    let legacy = CHATMIX_MIDDLE - (game - chat);
    let v = trunc_div((128 - legacy) * 100, 128);
    if v < 0 {
        0
    } else if v > 100 {
        100
    } else {
        v
    }
}

/// Battery charge for a reported level 1..=4.
pub open spec fn battery_spec(raw: u8) -> Option<u8> {
    if raw == 1 {
        Some(25u8)
    } else if raw == 2 {
        Some(50u8)
    } else if raw == 3 {
        Some(75u8)
    } else if raw == 4 {
        Some(100u8)
    } else {
        None
    }
}

/// The headset reports the two wheel halves separately, each 0..=100.
///
/// The older mapping put them on a 0..=128 scale where larger meant more
/// chat; this rescales that to 0..=100 where larger means more game.
pub fn chatmix_from_raw(game_raw: u8, chat_raw: u8) -> (r: u8)
    ensures
        r as int == chatmix_spec(game_raw, chat_raw),
        r <= 100,
{
    let game = crate::hid::headset::map(game_raw as i32, 0, 100, 0, 64);
    let chat = crate::hid::headset::map(chat_raw as i32, 0, 100, 0, 64);
    let legacy = CHATMIX_MIDDLE - (game - chat);
    let num: i32 = (128 - legacy) * 100;
    let v: i32 = if num >= 0 {
        num / 128
    } else {
        -((-num) / 128)
    };
    assert(v == trunc_div(num as int, 128));
    if v < 0 {
        0
    } else if v > 100 {
        100
    } else {
        v as u8
    }
}

/// The wheel half `x` (0..=100 on the headset) on the 0..=64 scale.
proof fn lemma_half_scaled(x: u8)
    ensures
        map_spec(x as int, 0, 100, 0, 64) == (x as int * 64) / 100,
        100 * ((x as int * 64) / 100) <= x as int * 64 < 100 * ((x as int * 64) / 100) + 100,
{
}

/// The balance in closed form: the game half less the chat half, each on
/// the 0..=64 scale, moved to the middle of 0..=128 and read as a percent,
/// rounded down and held to 0..=100.
pub proof fn lemma_chatmix_closed_form(game_raw: u8, chat_raw: u8)
    ensures
        chatmix_spec(game_raw, chat_raw) == {
            let a = 64 + (game_raw as int * 64) / 100 - (chat_raw as int * 64) / 100;
            if a <= 0 {
                0
            } else if (a * 100) / 128 > 100 {
                100
            } else {
                (a * 100) / 128
            }
        },
{
    lemma_half_scaled(game_raw);
    lemma_half_scaled(chat_raw);
    let a = 64 + (game_raw as int * 64) / 100 - (chat_raw as int * 64) / 100;
    assert((128 - (CHATMIX_MIDDLE - (map_spec(game_raw as int, 0, 100, 0, 64) - map_spec(chat_raw as int, 0, 100, 0, 64)))) * 100 == a * 100);
    if a > 0 {
        assert(trunc_div(a * 100, 128) == (a * 100) / 128);
    } else {
        assert(trunc_div(a * 100, 128) <= 0);
    }
}

/// The balance follows the wheel proportionally: twice the balance is the
/// game half less the chat half, shifted to the middle and held to
/// 0..=200, give or take 3 (the headset's coarser scale and rounding).
/// So an all-game wheel reads 100, an all-chat one 0, an even one 50, and
/// (75, 0) reads 87.
pub proof fn lemma_chatmix_proportional(game_raw: u8, chat_raw: u8)
    ensures
        ({
            let d = 100 + game_raw - chat_raw;
            let target = if d < 0 { 0 } else if d > 200 { 200 } else { d };
            -3 <= 2 * chatmix_spec(game_raw, chat_raw) - target <= 3
        }),
{
    lemma_chatmix_closed_form(game_raw, chat_raw);
    lemma_half_scaled(game_raw);
    lemma_half_scaled(chat_raw);
    let a = 64 + (game_raw as int * 64) / 100 - (chat_raw as int * 64) / 100;
    if a > 0 {
        let v = (a * 100) / 128;
        assert(128 * v <= a * 100 < 128 * v + 128);
    }
}

/// More game never lowers the balance, and more chat never raises it.
pub proof fn lemma_chatmix_monotone(g1: u8, g2: u8, c1: u8, c2: u8)
    requires
        g1 <= g2,
        c2 <= c1,
    ensures
        chatmix_spec(g1, c1) <= chatmix_spec(g2, c2),
{
    lemma_chatmix_closed_form(g1, c1);
    lemma_chatmix_closed_form(g2, c2);
    lemma_half_scaled(g1);
    lemma_half_scaled(g2);
    lemma_half_scaled(c1);
    lemma_half_scaled(c2);
    let a1 = 64 + (g1 as int * 64) / 100 - (c1 as int * 64) / 100;
    let a2 = 64 + (g2 as int * 64) / 100 - (c2 as int * 64) / 100;
    assert((g1 as int * 64) / 100 <= (g2 as int * 64) / 100);
    assert((c2 as int * 64) / 100 <= (c1 as int * 64) / 100);
    assert(a1 <= a2);
    if a1 > 0 {
        let v1 = (a1 * 100) / 128;
        let v2 = (a2 * 100) / 128;
        assert(128 * v1 <= a1 * 100 < 128 * v1 + 128);
        assert(128 * v2 <= a2 * 100 < 128 * v2 + 128);
        assert(v1 <= v2);
    }
}

/// Side tone counts the quarter marks a level passes: one step for each of
/// 25, 50 and 75 that the level exceeds, so a higher level never gives a
/// lower step and 0 is off.
pub proof fn lemma_sidetone_steps(level: u8, higher: u8)
    ensures
        sidetone_step(level) as int == (if level > 25 { 1int } else { 0 }) + (if level > 50 { 1int } else { 0 })
            + (if level > 75 { 1int } else { 0 }),
        level <= higher ==> sidetone_step(level) <= sidetone_step(higher),
        sidetone_step(level) <= 3,
{
}

/// Microphone volume falls in eighths of 128: the step is the largest one
/// up to 7 whose start, sixteen per step, the level reaches.
pub proof fn lemma_microphone_steps(level: u8, higher: u8)
    ensures
        microphone_step(level) <= 7,
        16 * microphone_step(level) <= level,
        microphone_step(level) < 7 ==> level < 16 * (microphone_step(level) + 1),
        level <= higher ==> microphone_step(level) <= microphone_step(higher),
{
}

/// Each of the four reported levels is a quarter of a full charge; any
/// other level is none.
pub proof fn lemma_battery_quarters(raw: u8)
    ensures
        1 <= raw <= 4 ==> battery_spec(raw) == Some((25 * raw) as u8),
        !(1 <= raw <= 4) ==> battery_spec(raw) is None,
{
}

/// The message of the error for an unknown battery level.
pub open spec fn battery_level_message(raw: u8) -> Seq<char> {
    "battery level "@ + decimal(raw as nat)
}

/// Charge is reported as a level 1..=4, not a percentage.
pub fn battery_from_raw(raw: u8) -> (r: Result<u8, HidError>)
    ensures
        battery_spec(raw) matches Some(v) ==> r == Ok::<u8, HidError>(v),
        battery_spec(raw) is None ==> (r matches Err(HidError::Protocol(m)) && m@
            == battery_level_message(raw)),
{
    if raw == 1 {
        Ok(25)
    } else if raw == 2 {
        Ok(50)
    } else if raw == 3 {
        Ok(75)
    } else if raw == 4 {
        Ok(100)
    } else {
        let mut m = String::from_str("battery level ");
        push_decimal(&mut m, raw as u64);
        Err(HidError::Protocol(m))
    }
}

/// The report that sets side tone.
pub fn sidetone_report(level: u8) -> (r: Vec<u8>)
    ensures
        r@ == seq![0x00u8, 0x39u8, sidetone_step(level)],
{
    let step: u8 = if level <= 25 {
        0
    } else if level <= 50 {
        1
    } else if level <= 75 {
        2
    } else {
        3
    };
    vec![0x00, 0x39, step]
}

/// The report that sets microphone volume.
pub fn microphone_report(level: u8) -> (r: Vec<u8>)
    ensures
        r@ == seq![0x00u8, 0x37u8, microphone_step(level)],
{
    let q = level / 16;
    let step: u8 = if q < 7 {
        q
    } else {
        7
    };
    vec![0x00, 0x37, step]
}

#[derive(Debug, Clone, Copy, Default)]
pub struct ArctisNova7;

impl ArctisNova7 {
    pub fn new() -> (r: Self) {
        ArctisNova7
    }

    /// Request the status report and read it into the start of `buf`.
    pub fn status_report<T: HidTransport>(&self, t: &mut T, buf: &mut [u8]) -> (r: Result<
        (),
        HidError,
    >)
        ensures
            final(buf)@.len() == old(buf)@.len(),
            (exchanged(*old(t), *final(t), data_request()) && r is Ok && final(t).received().last().len()
                <= old(buf)@.len() && final(buf)@ == overlay(final(t).received().last(), old(buf)@))
                || (exchange_failed(*old(t), *final(t), data_request()) && r is Err),
    {
        let req: [u8; 2] = DATA_REQUEST;
        let v = vec![req[0], req[1]];
        assert(v@ =~= data_request());
        match t.write(v.as_slice()) {
            Err(e) => return Err(e),
            Ok(()) => {},
        }
        match t.read(buf, READ_TIMEOUT_MS) {
            Err(e) => Err(e),
            Ok(n) => {
                proof {
                    let last = buf@.take(n as int);
                    assert(t.received().drop_last() =~= old(t).received());
                    assert(t.received().last() == last);
                }
                Ok(())
            },
        }
    }
}

/// The ChatMix balance of a status reply: the wheel halves are bytes 4
/// (game) and 5 (chat); a reply too short to hold one reads it as 0.
pub open spec fn chatmix_of_reply(reply: Seq<u8>) -> u8 {
    chatmix_spec(byte_or_zero(reply, 4), byte_or_zero(reply, 5)) as u8
}

/// The battery charge of a status reply: the level is byte 2.
pub open spec fn battery_of_reply(reply: Seq<u8>) -> Option<u8> {
    battery_spec(byte_or_zero(reply, 2))
}

/// The ChatMix balance a status reply reports.
pub fn chatmix_of_report(reply: &[u8]) -> (r: u8)
    ensures
        r == chatmix_of_reply(reply@),
        r <= 100,
{
    let game_raw: u8 = if reply.len() > 4 { reply[4] } else { 0 };
    let chat_raw: u8 = if reply.len() > 5 { reply[5] } else { 0 };
    chatmix_from_raw(game_raw, chat_raw)
}

/// The battery charge a status reply reports, or the protocol error for a
/// level the headset does not define.
pub fn battery_of_report(reply: &[u8]) -> (r: Result<u8, HidError>)
    ensures
        battery_of_reply(reply@) matches Some(v) ==> r == Ok::<u8, HidError>(v),
        battery_of_reply(reply@) is None ==> (r matches Err(HidError::Protocol(m)) && m@
            == battery_level_message(byte_or_zero(reply@, 2))),
{
    let raw: u8 = if reply.len() > 2 { reply[2] } else { 0 };
    battery_from_raw(raw)
}

/// A reply read into a zeroed buffer leaves the buffer reading as the reply.
proof fn lemma_zero_overlay(reply: Seq<u8>, len: nat, i: int)
    requires
        reply.len() <= len,
        0 <= i < len,
    ensures
        overlay(reply, Seq::new(len, |k: int| 0u8)).len() == len,
        overlay(reply, Seq::new(len, |k: int| 0u8))[i] == byte_or_zero(reply, i),
{
}

impl Headset for ArctisNova7 {
    open spec fn spec_id(&self) -> DeviceId {
        DeviceId { vendor_id: VENDOR_ID, product_id: PRODUCT_ID }
    }

    open spec fn spec_name(&self) -> Seq<char> {
        NAME@
    }

    open spec fn spec_capabilities(&self) -> Seq<Capability> {
        seq![
            Capability::Sidetone,
            Capability::MicrophoneVolume,
            Capability::ChatMixStatus,
            Capability::BatteryStatus,
        ]
    }

    open spec fn sidetone_report(&self, level: u8) -> Option<Seq<u8>> {
        Some(seq![0x00u8, 0x39u8, sidetone_step(level)])
    }

    open spec fn microphone_report(&self, level: u8) -> Option<Seq<u8>> {
        Some(seq![0x00u8, 0x37u8, microphone_step(level)])
    }

    open spec fn status_request(&self) -> Option<Seq<u8>> {
        Some(data_request())
    }

    open spec fn chatmix_reading(&self, reply: Seq<u8>) -> u8 {
        chatmix_of_reply(reply)
    }

    open spec fn battery_reading(&self, reply: Seq<u8>) -> Option<u8> {
        battery_of_reply(reply)
    }

    fn id(&self) -> (r: DeviceId) {
        DeviceId::new(VENDOR_ID, PRODUCT_ID)
    }

    fn name(&self) -> (r: &str) {
        NAME
    }

    fn capabilities(&self) -> (r: Vec<Capability>) {
        vec![
            Capability::Sidetone,
            Capability::MicrophoneVolume,
            Capability::ChatMixStatus,
            Capability::BatteryStatus,
        ]
    }

    fn set_sidetone<T: HidTransport>(&self, t: &mut T, level: u8) -> (r: Result<(), HidError>) {
        let rep = sidetone_report(level);
        let r = t.write(rep.as_slice());
        proof {
            if r is Err {
                assert(t.sent().len() != old(t).sent().push(rep@).len());
            }
        }
        r
    }

    fn set_microphone_volume<T: HidTransport>(&self, t: &mut T, level: u8) -> (r: Result<
        (),
        HidError,
    >) {
        let rep = microphone_report(level);
        let r = t.write(rep.as_slice());
        proof {
            if r is Err {
                assert(t.sent().len() != old(t).sent().push(rep@).len());
            }
        }
        r
    }

    fn read_chatmix<T: HidTransport>(&self, t: &mut T) -> (r: Result<u8, HidError>) {
        let mut buf: Vec<u8> = vec![0u8; 64];
        let ghost zeros = buf@;
        match self.status_report(t, buf.as_mut_slice()) {
            Err(e) => return Err(e),
            Ok(()) => {},
        }
        let ghost reply = t.received().last();
        let v = chatmix_of_report(buf.as_slice());
        proof {
            assert(zeros =~= Seq::new(64, |k: int| 0u8));
            lemma_zero_overlay(reply, 64, 4);
            lemma_zero_overlay(reply, 64, 5);
            assert(byte_or_zero(buf@, 4) == byte_or_zero(reply, 4));
            assert(byte_or_zero(buf@, 5) == byte_or_zero(reply, 5));
        }
        Ok(v)
    }

    fn read_battery<T: HidTransport>(&self, t: &mut T) -> (r: Result<u8, HidError>) {
        let mut buf: Vec<u8> = vec![0u8; 8];
        let ghost zeros = buf@;
        match self.status_report(t, buf.as_mut_slice()) {
            Err(e) => return Err(e),
            Ok(()) => {},
        }
        let ghost reply = t.received().last();
        proof {
            assert(zeros =~= Seq::new(8, |k: int| 0u8));
            lemma_zero_overlay(reply, 8, 2);
            assert(byte_or_zero(buf@, 2) == byte_or_zero(reply, 2));
        }
        battery_of_report(buf.as_slice())
    }
}

} // verus!
