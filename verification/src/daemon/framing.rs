//! NDJSON framing: one request per line, with a hard size cap enforced while
//! reading, so an endless line cannot exhaust memory before it is rejected.

use vstd::prelude::*;

verus! {

/// Why no frame was produced.
#[derive(Debug)]
pub enum FrameError {
    Eof,
    /// Line exceeded the frame cap; the connection must close.
    TooLong,
    Io(String),
}

/// What to do after looking at one chunk of buffered input.
#[derive(Debug, Clone, Copy, PartialEq, Eq, Structural)]
pub enum FrameStep {
    /// The stream ended before any byte of a frame.
    Eof,
    /// The line exceeds the cap; nothing more is read.
    TooLong,
    /// A whole line is in the buffer; `consumed` bytes of input were used.
    Done { consumed: usize },
    /// The line continues; `consumed` bytes were taken, read more.
    More { consumed: usize },
}

/// Index of the first `\n`, or -1.
pub open spec fn first_newline(s: Seq<u8>) -> int
    decreases s.len(),
{
    if s.len() == 0 {
        -1
    } else if s[0] == 10u8 {
        0
    } else {
        let r = first_newline(s.drop_first());
        if r < 0 {
            -1
        } else {
            r + 1
        }
    }
}

pub open spec fn no_newline(s: Seq<u8>) -> bool {
    forall|k: int| 0 <= k < s.len() ==> #[trigger] s[k] != 10u8
}

/// The first line of `s`, without its terminator.
pub open spec fn first_line(s: Seq<u8>) -> Seq<u8> {
    if first_newline(s) < 0 {
        s
    } else {
        s.take(first_newline(s))
    }
}

/// The first `\n` is where a scan first meets one.
pub proof fn lemma_first_newline(s: Seq<u8>, i: int)
    requires
        0 <= i <= s.len(),
        forall|k: int| 0 <= k < i ==> #[trigger] s[k] != 10u8,
        i < s.len() ==> s[i] == 10u8,
    ensures
        first_newline(s) == if i < s.len() { i } else { -1 },
    decreases i,
{
    if i > 0 {
        assert forall|k: int| 0 <= k < i - 1 implies #[trigger] s.drop_first()[k] != 10u8 by {
            assert(s[k + 1] != 10u8);
        }
        lemma_first_newline(s.drop_first(), i - 1);
    }
}

/// A newline-free prefix shifts the first newline by its length.
pub proof fn lemma_first_newline_append(a: Seq<u8>, b: Seq<u8>)
    requires
        no_newline(a),
    ensures
        first_newline(a + b) == if first_newline(b) < 0 {
            -1
        } else {
            a.len() + first_newline(b)
        },
    decreases a.len(),
{
    if a.len() > 0 {
        assert((a + b).drop_first() =~= a.drop_first() + b);
        assert forall|k: int| 0 <= k < a.drop_first().len() implies #[trigger] a.drop_first()[k]
            != 10u8 by {
            assert(a[k + 1] != 10u8);
        }
        assert((a + b)[0] == a[0]);
        lemma_first_newline_append(a.drop_first(), b);
    } else {
        assert(a + b =~= b);
    }
}

/// One step of reading a frame: `buf` holds the line so far, `chunk` what
/// the reader has buffered next (empty at end of stream).
pub open spec fn step_spec(buf: Seq<u8>, chunk: Seq<u8>, max: int) -> (FrameStep, Seq<u8>) {
    if chunk.len() == 0 {
        if buf.len() == 0 {
            (FrameStep::Eof, buf)
        } else {
            (FrameStep::Done { consumed: 0 }, buf)
        }
    } else if first_newline(chunk) >= 0 {
        let i = first_newline(chunk);
        if buf.len() + i > max {
            (FrameStep::TooLong, buf)
        } else {
            (FrameStep::Done { consumed: (i + 1) as usize }, buf + chunk.take(i))
        }
    } else if buf.len() + chunk.len() > max {
        (FrameStep::TooLong, buf)
    } else {
        (FrameStep::More { consumed: chunk.len() as usize }, buf + chunk)
    }
}

/// Look at one chunk of buffered input and extend the frame in `buf`.
///
/// The cap is checked before anything is copied, so the buffer never grows
/// past `max`.
pub fn frame_step(buf: &mut Vec<u8>, chunk: &[u8], max: usize) -> (r: FrameStep)
    ensures
        (r, final(buf)@) == step_spec(old(buf)@, chunk@, max as int),
{
    if chunk.len() == 0 {
        return if buf.len() == 0 {
            FrameStep::Eof
        } else {
            FrameStep::Done { consumed: 0 }
        };
    }
    let mut i: usize = 0;
    while i < chunk.len() && chunk[i] != 10u8
        invariant
            i <= chunk@.len(),
            forall|k: int| 0 <= k < i ==> #[trigger] chunk@[k] != 10u8,
        decreases chunk@.len() - i,
    {
        i = i + 1;
    }
    proof {
        lemma_first_newline(chunk@, i as int);
    }
    let n = if i < chunk.len() {
        i
    } else {
        chunk.len()
    };
    if buf.len() > max || n > max - buf.len() {
        return FrameStep::TooLong;
    }
    let ghost before = buf@;
    let mut k: usize = 0;
    while k < n
        invariant
            k <= n,
            n <= chunk@.len(),
            buf@ == before + chunk@.take(k as int),
        decreases n - k,
    {
        buf.push(chunk[k]);
        k = k + 1;
        assert(buf@ =~= before + chunk@.take(k as int));
    }
    if i < chunk.len() {
        FrameStep::Done { consumed: i + 1 }
    } else {
        assert(chunk@.take(n as int) =~= chunk@);
        FrameStep::More { consumed: n }
    }
}

/// What a whole read produces.
pub ghost enum FrameOutcome {
    Eof,
    TooLong,
    Line(Seq<u8>),
}

/// The frame a stream holds: its first line, unless the stream is empty or
/// that line is over the cap.
pub open spec fn frame_of(stream: Seq<u8>, max: int) -> FrameOutcome {
    if stream.len() == 0 {
        FrameOutcome::Eof
    } else if first_line(stream).len() > max {
        FrameOutcome::TooLong
    } else {
        FrameOutcome::Line(first_line(stream))
    }
}

/// Repeating [`frame_step`] over the chunks a reader hands out, starting
/// from `buf`; running out of chunks is the end of the stream.
pub open spec fn run_steps(buf: Seq<u8>, chunks: Seq<Seq<u8>>, max: int) -> FrameOutcome
    decreases chunks.len(),
{
    let chunk = if chunks.len() == 0 {
        Seq::<u8>::empty()
    } else {
        chunks[0]
    };
    let (step, next) = step_spec(buf, chunk, max);
    match step {
        FrameStep::Eof => FrameOutcome::Eof,
        FrameStep::TooLong => FrameOutcome::TooLong,
        FrameStep::Done { .. } => FrameOutcome::Line(next),
        FrameStep::More { .. } => if chunks.len() == 0 {
            FrameOutcome::Eof
        } else {
            run_steps(next, chunks.drop_first(), max)
        },
    }
}

/// The buffer never grows past the cap: an endless line is refused before
/// it can take more memory than one frame.
pub proof fn lemma_buffer_stays_capped(buf: Seq<u8>, chunk: Seq<u8>, max: int)
    requires
        buf.len() <= max,
    ensures
        step_spec(buf, chunk, max).1.len() <= max,
{
    if chunk.len() > 0 && first_newline(chunk) >= 0 {
        let i = first_newline(chunk);
        if buf.len() + i <= max {
            lemma_first_newline_bounds(chunk);
            assert((buf + chunk.take(i)).len() == buf.len() + i);
        }
    }
}

proof fn lemma_first_newline_bounds(s: Seq<u8>)
    ensures
        -1 <= first_newline(s) < s.len(),
    decreases s.len(),
{
    if s.len() > 0 && s[0] != 10u8 {
        lemma_first_newline_bounds(s.drop_first());
    }
}

/// However the stream is cut into chunks, reading a frame gives the same
/// result: the stream's first line, `TooLong` exactly when that line is over
/// the cap, `Eof` exactly when the stream is empty.
pub proof fn lemma_framing_ignores_chunking(chunks: Seq<Seq<u8>>, max: int)
    requires
        forall|i: int| 0 <= i < chunks.len() ==> #[trigger] chunks[i].len() > 0,
        max >= 0,
    ensures
        run_steps(Seq::empty(), chunks, max) == frame_of(chunks.flatten(), max),
{
    lemma_run_steps(Seq::empty(), chunks, max);
    assert(Seq::<u8>::empty() + chunks.flatten() =~= chunks.flatten());
}

proof fn lemma_run_steps(buf: Seq<u8>, chunks: Seq<Seq<u8>>, max: int)
    requires
        forall|i: int| 0 <= i < chunks.len() ==> #[trigger] chunks[i].len() > 0,
        no_newline(buf),
        buf.len() <= max,
    ensures
        run_steps(buf, chunks, max) == frame_of(buf + chunks.flatten(), max),
    decreases chunks.len(),
{
    if chunks.len() == 0 {
        assert(buf + chunks.flatten() =~= buf);
        lemma_first_newline(buf, buf.len() as int);
    } else {
        let c = chunks[0];
        let rest = chunks.drop_first();
        assert(chunks.flatten() == c + rest.flatten());
        assert(buf + chunks.flatten() =~= buf + (c + rest.flatten()));
        lemma_first_newline_append(buf, c + rest.flatten());
        assert(c.len() > 0);
        let s = buf + (c + rest.flatten());
        if first_newline(c) >= 0 {
            let i = first_newline(c);
            lemma_first_newline_hit(c);
            assert(first_newline(c + rest.flatten()) == i) by {
                let j = first_newline(c);
                assert forall|k: int| 0 <= k < j implies #[trigger] (c + rest.flatten())[k] != 10u8 by {
                    assert((c + rest.flatten())[k] == c[k]);
                    lemma_first_newline_prefix(c, k);
                }
                lemma_first_newline_hit(c);
                lemma_first_newline(c + rest.flatten(), j);
            }
            assert(first_newline(s) == buf.len() + i);
            assert(first_line(s) =~= buf + c.take(i));
        } else {
            assert(no_newline(c)) by {
                lemma_no_newline(c);
            }
            lemma_first_newline_append(c, rest.flatten());
            let next = buf + c;
            assert(no_newline(next)) by {
                assert forall|k: int| 0 <= k < next.len() implies #[trigger] next[k] != 10u8 by {
                    if k < buf.len() {
                        assert(next[k] == buf[k]);
                    } else {
                        assert(next[k] == c[k - buf.len()]);
                    }
                }
            }
            if buf.len() + c.len() > max {
                if first_newline(s) < 0 {
                    assert(first_line(s) == s);
                } else {
                    assert(first_newline(s) >= buf.len() + c.len());
                    lemma_first_newline_hit(s);
                    assert(first_line(s).len() == first_newline(s));
                }
            } else {
                assert(forall|i: int| 0 <= i < rest.len() ==> #[trigger] rest[i] == chunks[i + 1]);
                lemma_run_steps(next, rest, max);
                assert(next + rest.flatten() =~= s);
            }
        }
    }
}

/// Nothing before the first newline is a newline.
proof fn lemma_first_newline_prefix(s: Seq<u8>, k: int)
    requires
        0 <= k < first_newline(s),
    ensures
        s[k] != 10u8,
    decreases s.len(),
{
    lemma_first_newline_hit(s);
    if k > 0 {
        lemma_first_newline_prefix(s.drop_first(), k - 1);
    }
}

/// The first newline is a newline.
proof fn lemma_first_newline_hit(s: Seq<u8>)
    requires
        first_newline(s) >= 0,
    ensures
        first_newline(s) < s.len(),
        s[first_newline(s)] == 10u8,
    decreases s.len(),
{
    if s[0] != 10u8 {
        lemma_first_newline_hit(s.drop_first());
    }
}

/// A sequence without a first newline has none at all.
proof fn lemma_no_newline(s: Seq<u8>)
    requires
        first_newline(s) < 0,
    ensures
        no_newline(s),
    decreases s.len(),
{
    if s.len() > 0 {
        lemma_no_newline(s.drop_first());
        assert forall|k: int| 0 <= k < s.len() implies #[trigger] s[k] != 10u8 by {
            if k > 0 {
                assert(s[k] == s.drop_first()[k - 1]);
            }
        }
    }
}

} // verus!
