//! In-memory transport serving canned replies, for exercising models without
//! hardware.

use crate::hid::error::HidError;
use crate::hid::headset::HidTransport;
use vstd::prelude::*;

verus! {

/// What a mock device has seen and will answer.
#[derive(Debug, Default, Clone)]
pub struct MockState {
    /// Every buffer written, in order.
    pub writes: Vec<Vec<u8>>,
    /// Replies handed to successive reads, oldest first.
    pub replies: Vec<Vec<u8>>,
    /// What each successful read copied out, in order.
    pub served: Vec<Vec<u8>>,
}

/// A transport that records writes and serves queued replies.
#[derive(Debug, Default, Clone)]
pub struct MockTransport {
    pub state: MockState,
}

pub open spec fn views_of(v: Seq<Vec<u8>>) -> Seq<Seq<u8>> {
    v.map_values(|b: Vec<u8>| b@)
}

impl MockTransport {
    pub fn new(replies: Vec<Vec<u8>>) -> (t: MockTransport)
        ensures
            t.state.writes@.len() == 0,
            t.state.replies@ == replies@,
            t.state.served@.len() == 0,
    {
        MockTransport { state: MockState { writes: Vec::new(), replies, served: Vec::new() } }
    }

    /// Queue more replies.
    pub fn add_replies(&mut self, replies: Vec<Vec<u8>>)
        ensures
            final(self).state.writes@ == old(self).state.writes@,
            final(self).state.replies@ == old(self).state.replies@ + replies@,
            final(self).state.served@ == old(self).state.served@,
    {
        let mut replies = replies;
        self.state.replies.append(&mut replies);
    }
}

fn slice_to_vec(data: &[u8]) -> (v: Vec<u8>)
    ensures
        v@ == data@,
{
    let mut v: Vec<u8> = Vec::new();
    let mut i: usize = 0;
    while i < data.len()
        invariant
            i <= data@.len(),
            v@ == data@.take(i as int),
        decreases data@.len() - i,
    {
        v.push(data[i]);
        i = i + 1;
        assert(v@ =~= data@.take(i as int));
    }
    assert(data@.take(data@.len() as int) =~= data@);
    v
}

fn prefix(v: &Vec<u8>, n: usize) -> (r: Vec<u8>)
    requires
        n <= v@.len(),
    ensures
        r@ == v@.take(n as int),
{
    let mut r: Vec<u8> = Vec::new();
    let mut i: usize = 0;
    while i < n
        invariant
            n <= v@.len(),
            i <= n,
            r@ == v@.take(i as int),
        decreases n - i,
    {
        r.push(v[i]);
        i = i + 1;
        assert(r@ =~= v@.take(i as int));
    }
    r
}

impl HidTransport for MockTransport {
    /// Every write succeeds, so what was attempted is what was sent.
    open spec fn attempted(&self) -> Seq<Seq<u8>> {
        views_of(self.state.writes@)
    }

    open spec fn sent(&self) -> Seq<Seq<u8>> {
        views_of(self.state.writes@)
    }

    open spec fn received(&self) -> Seq<Seq<u8>> {
        views_of(self.state.served@)
    }

    fn write(&mut self, data: &[u8]) -> (r: Result<(), HidError>)
        ensures
            r is Ok,
            views_of(final(self).state.writes@) == views_of(old(self).state.writes@).push(data@),
            final(self).state.replies@ == old(self).state.replies@,
            final(self).state.served@ == old(self).state.served@,
    {
        let v = slice_to_vec(data);
        self.state.writes.push(v);
        assert(views_of(self.state.writes@) =~= views_of(old(self).state.writes@).push(data@));
        Ok(())
    }

    /// An exhausted queue, or a reply that copies no bytes, reads as a
    /// timeout, as an empty read on a real device does.
    fn read(&mut self, buf: &mut [u8], timeout_ms: i32) -> (r: Result<usize, HidError>)
        ensures
            final(self).state.writes@ == old(self).state.writes@,
            r is Err ==> final(self).state.served@ == old(self).state.served@,
            old(self).state.replies@.len() == 0 ==> {
                &&& r == Err::<usize, HidError>(HidError::Timeout)
                &&& final(self).state.replies@ == old(self).state.replies@
                &&& final(buf)@ == old(buf)@
            },
            old(self).state.replies@.len() > 0 ==> {
                let reply = old(self).state.replies@[0]@;
                let n = if reply.len() < old(buf)@.len() { reply.len() } else { old(buf)@.len() };
                &&& final(self).state.replies@ == old(self).state.replies@.drop_first()
                &&& n == 0 ==> r == Err::<usize, HidError>(HidError::Timeout) && final(buf)@ == old(buf)@
                &&& n > 0 ==> r == Ok::<usize, HidError>(n as usize)
                    && final(buf)@ == reply.take(n as int) + old(buf)@.skip(n as int)
            },
    {
        if self.state.replies.len() == 0 {
            return Err(HidError::Timeout);
        }
        let reply = self.state.replies.remove(0);
        let n = if reply.len() < buf.len() {
            reply.len()
        } else {
            buf.len()
        };
        if n == 0 {
            return Err(HidError::Timeout);
        }
        let mut i: usize = 0;
        while i < n
            invariant
                n <= reply@.len(),
                n <= buf@.len(),
                i <= n,
                buf@.len() == old(buf)@.len(),
                buf@ == reply@.take(i as int) + old(buf)@.skip(i as int),
            decreases n - i,
        {
            buf[i] = reply[i];
            i = i + 1;
            assert(buf@ =~= reply@.take(i as int) + old(buf)@.skip(i as int));
        }
        let copied = prefix(&reply, n);
        proof {
            assert(reply@.take(n as int) =~= buf@.take(n as int));
        }
        let ghost before = self.state.served@;
        self.state.served.push(copied);
        assert(views_of(self.state.served@) =~= views_of(before).push(buf@.take(n as int)));
        Ok(n)
    }
}

} // verus!
