//! Newline-delimited framing of a byte stream.
//!
//! Bytes arrive in chunks of any size.  A `LineBuffer` hands out each
//! complete line, without its newline, and keeps the unfinished tail for
//! the next chunk.  A line longer than the buffer's bound is an error of
//! its own: the peer broke the protocol.

use vstd::prelude::*;

verus! {

pub const NEWLINE: u8 = 0x0a;

/// The complete lines of a stream, without their newlines.
pub open spec fn lines_of(s: Seq<u8>) -> Seq<Seq<u8>>
    decreases s.len(),
{
    if s.len() == 0 {
        Seq::empty()
    } else if s.last() == NEWLINE {
        lines_of(s.drop_last()).push(tail_of(s.drop_last()))
    } else {
        lines_of(s.drop_last())
    }
}

/// What follows the last newline of a stream.
pub open spec fn tail_of(s: Seq<u8>) -> Seq<u8>
    decreases s.len(),
{
    if s.len() == 0 {
        Seq::empty()
    } else if s.last() == NEWLINE {
        Seq::empty()
    } else {
        tail_of(s.drop_last()).push(s.last())
    }
}

/// Some line of the stream, complete or not, holds more than `max` bytes.
pub open spec fn overlong(s: Seq<u8>, max: int) -> bool
    decreases s.len(),
{
    s.len() > 0 && (overlong(s.drop_last(), max) || tail_of(s).len() > max)
}

/// A line longer than the buffer's bound.
#[derive(Clone, Copy, Debug, PartialEq, Eq, Structural)]
pub enum FrameError {
    LineTooLong,
}

pub struct LineBufferView {
    /// The unfinished line.
    pub pending: Seq<u8>,
    /// The longest line accepted, in bytes.
    pub max_line: int,
}

impl LineBufferView {
    pub open spec fn wf(self) -> bool {
        &&& self.pending.len() <= self.max_line
        &&& forall|i: int| 0 <= i < self.pending.len() ==> self.pending[i] != NEWLINE
    }
}

pub open spec fn views_of(lines: Seq<Vec<u8>>) -> Seq<Seq<u8>> {
    lines.map_values(|l: Vec<u8>| l@)
}

pub struct LineBuffer {
    pending: Vec<u8>,
    max_line: usize,
}

impl View for LineBuffer {
    type V = LineBufferView;

    closed spec fn view(&self) -> LineBufferView {
        LineBufferView { pending: self.pending@, max_line: self.max_line as int }
    }
}

/// A stream without a newline and no longer than `max` is all tail.
proof fn lemma_unbroken(s: Seq<u8>, max: int)
    requires
        s.len() <= max,
        forall|i: int| 0 <= i < s.len() ==> s[i] != NEWLINE,
    ensures
        lines_of(s) == Seq::<Seq<u8>>::empty(),
        tail_of(s) == s,
        !overlong(s, max),
    decreases s.len(),
{
    if s.len() > 0 {
        lemma_unbroken(s.drop_last(), max);
        assert(s.drop_last().push(s.last()) =~= s);
    }
}

/// Once some line is too long, it stays so however the stream goes on.
proof fn lemma_overlong_extends(s: Seq<u8>, k: int, max: int)
    requires
        0 <= k <= s.len(),
        overlong(s.take(k), max),
    ensures
        overlong(s, max),
    decreases s.len() - k,
{
    if k < s.len() {
        assert(s.take(k + 1).drop_last() =~= s.take(k));
        lemma_overlong_extends(s, k + 1, max);
    } else {
        assert(s.take(k) =~= s);
    }
}

impl LineBuffer {
    /// An empty buffer that accepts lines of up to `max_line` bytes.
    pub fn new(max_line: usize) -> (r: LineBuffer)
        ensures
            r@ == (LineBufferView { pending: Seq::empty(), max_line: max_line as int }),
            r@.wf(),
    {
        LineBuffer { pending: Vec::new(), max_line }
    }

    /// The unfinished line held so far.
    pub fn pending(&self) -> (r: &[u8])
        ensures
            r@ == self@.pending,
    {
        self.pending.as_slice()
    }

    /// Takes in `chunk`.  Returns the lines that it completes, in order,
    /// and keeps what follows the last newline.  If some line of the
    /// stream so far is longer than the bound, returns the error and keeps
    /// the buffer as it was.
    pub fn push(&mut self, chunk: &[u8]) -> (r: Result<Vec<Vec<u8>>, FrameError>)
        requires
            old(self)@.wf(),
        ensures
            final(self)@.wf(),
            ({
                let s = old(self)@.pending + chunk@;
                match r {
                    Ok(lines) => {
                        &&& !overlong(s, old(self)@.max_line)
                        &&& views_of(lines@) == lines_of(s)
                        &&& final(self)@ == (LineBufferView { pending: tail_of(s), ..old(self)@ })
                    },
                    Err(e) => {
                        &&& e == FrameError::LineTooLong
                        &&& overlong(s, old(self)@.max_line)
                        &&& final(self)@ == old(self)@
                    },
                }
            }),
    {
        let ghost s = self.pending@ + chunk@;
        let ghost max = self.max_line as int;
        let mut out: Vec<Vec<u8>> = Vec::new();
        let mut cur: Vec<u8> = self.pending.clone();
        proof {
            lemma_unbroken(self.pending@, max);
            assert(s.take(self.pending@.len() as int) =~= self.pending@);
        }
        let mut i: usize = 0;
        while i < chunk.len()
            invariant
                self@.wf(),
                s == self@.pending + chunk@,
                max == self@.max_line,
                i <= chunk@.len(),
                views_of(out@) == lines_of(s.take(self@.pending.len() + i)),
                cur@ == tail_of(s.take(self@.pending.len() + i)),
                !overlong(s.take(self@.pending.len() + i), max),
                cur@.len() <= max,
            decreases chunk.len() - i,
        {
            let ghost n = self@.pending.len() + i;
            let b = chunk[i];
            assert(s.take(n + 1).drop_last() =~= s.take(n));
            assert(s.take(n + 1).last() == b);
            if b == NEWLINE {
                let ghost before = out@;
                out.push(cur);
                cur = Vec::new();
                assert(views_of(out@) =~= views_of(before).push(tail_of(s.take(n))));
            } else {
                if cur.len() >= self.max_line {
                    proof {
                        lemma_overlong_extends(s, n + 1, max);
                    }
                    return Err(FrameError::LineTooLong);
                }
                cur.push(b);
            }
            i = i + 1;
        }
        assert(s.take(s.len() as int) =~= s);
        proof {
            assert forall|j: int| 0 <= j < cur@.len() implies cur@[j] != NEWLINE by {
                lemma_tail_unbroken(s, j);
            }
        }
        self.pending = cur;
        Ok(out)
    }
}

/// The tail of a stream holds no newline.
proof fn lemma_tail_unbroken(s: Seq<u8>, j: int)
    requires
        0 <= j < tail_of(s).len(),
    ensures
        tail_of(s)[j] != NEWLINE,
    decreases s.len(),
{
    if s.len() > 0 && s.last() != NEWLINE && j < tail_of(s.drop_last()).len() {
        lemma_tail_unbroken(s.drop_last(), j);
    }
}

} // verus!
