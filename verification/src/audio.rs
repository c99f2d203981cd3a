//! Sample-rate conversion windowing.
//!
//! The conversion to the canonical rate processes its input in fixed
//! windows of [`WINDOW_SIZE`] samples, because the frequency-domain
//! converter underneath needs equal-length blocks.  The converter itself
//! works on floating-point samples and therefore runs outside of this
//! crate; what is verified here is everything around it: the identity and
//! empty fast paths, the chunking, the zero padding of the final partial
//! window, and the proportional truncation of that window's output.
//!
//! A caller drives a [`ResampleSession`]: it repeatedly asks for the next
//! window with [`ResampleSession::next_window`], converts it, and hands
//! the conversion back with [`ResampleSession::push_output`]; when no
//! window is left, [`ResampleSession::take_output`] yields the converted
//! samples.

use vstd::prelude::*;

verus! {

/// The canonical sample rate every captured recording is converted to
/// before it is handed to a backend.
pub const TARGET_SAMPLE_RATE: u32 = 16000;

/// The fixed number of samples per conversion window.
pub const WINDOW_SIZE: usize = 1024;

/// The highest sample rate the converter windowing accepts.  Real input
/// devices stay far below it; the bound keeps every intermediate product
/// of the proportional-truncation arithmetic within machine range.
pub const RATE_LIMIT: usize = 1000000;

/// Why a conversion session could not be set up.
#[derive(Debug, Clone, Copy, PartialEq, Eq, Structural)]
pub enum ResampleError {
    /// A rate is zero or above [`RATE_LIMIT`].
    InvalidRates,
}

/// Whether a pair of sample rates is accepted for conversion.
pub open spec fn rates_valid(from_rate: int, to_rate: int) -> bool {
    &&& 1 <= from_rate <= RATE_LIMIT
    &&& 1 <= to_rate <= RATE_LIMIT
}

/// `count` zero samples.
pub open spec fn zero_samples(count: int) -> Seq<u32> {
    Seq::new(count as nat, |i: int| 0u32)
}

/// How many samples of the final partial window's conversion are kept:
/// the share of the window that held real input, converted to the target
/// rate, and never more than the conversion produced.
pub open spec fn partial_keep(rem: int, from_rate: int, to_rate: int, produced: int) -> int {
    let expected = rem * to_rate / from_rate;
    if expected <= produced {
        expected
    } else {
        produced
    }
}

/// A sample-rate conversion in progress.
pub struct ResampleSession {
    input: Vec<u32>,
    from_rate: usize,
    to_rate: usize,
    pos: usize,
    rem: usize,
    output: Vec<u32>,
    awaiting: bool,
    done: bool,
}

impl ResampleSession {
    /// The samples being converted.
    pub closed spec fn inp(&self) -> Seq<u32> {
        self.input@
    }

    /// The source sample rate.
    pub closed spec fn from_rate(&self) -> int {
        self.from_rate as int
    }

    /// The target sample rate.
    pub closed spec fn to_rate(&self) -> int {
        self.to_rate as int
    }

    /// How many input samples have been handed out as windows.
    pub closed spec fn spec_pos(&self) -> int {
        self.pos as int
    }

    /// The converted samples accumulated so far.
    pub closed spec fn out_seq(&self) -> Seq<u32> {
        self.output@
    }

    /// Whether a window has been handed out whose conversion has not yet
    /// been pushed back.
    pub closed spec fn is_awaiting(&self) -> bool {
        self.awaiting
    }

    /// The number of real input samples in the window handed out last:
    /// positive exactly when that window was the padded final one.
    pub closed spec fn pending_rem(&self) -> int {
        self.rem as int
    }

    /// Whether the conversion is complete and the output ready.
    pub closed spec fn is_done(&self) -> bool {
        self.done
    }

    /// The session invariant.
    pub closed spec fn wf(&self) -> bool {
        &&& self.pos <= self.input@.len()
        &&& (self.awaiting ==> !self.done)
        &&& (!self.done ==> rates_valid(self.from_rate as int, self.to_rate as int))
        &&& (self.awaiting && self.rem > 0 ==> self.pos == self.input@.len() && 0 < self.rem
            < WINDOW_SIZE)
        &&& (!self.awaiting ==> self.rem == 0)
    }

    /// Open a conversion session.
    ///
    /// An empty input completes at once with empty output, whatever the
    /// rates; equal rates complete at once with the input unchanged; any
    /// other pair of rates must satisfy [`rates_valid`] or the session is
    /// refused.
    pub fn new(input: Vec<u32>, from_rate: usize, to_rate: usize) -> (r: Result<
        ResampleSession,
        ResampleError,
    >)
        ensures
            r is Err <==> (input@.len() > 0 && from_rate != to_rate && !rates_valid(
                from_rate as int,
                to_rate as int,
            )),
            r matches Err(e) ==> e == ResampleError::InvalidRates,
            r matches Ok(s) ==> {
                &&& s.wf()
                &&& !s.is_awaiting()
                &&& s.inp() == input@
                &&& s.from_rate() == from_rate
                &&& s.to_rate() == to_rate
                &&& (input@.len() == 0 ==> s.is_done() && s.out_seq() == Seq::<u32>::empty())
                &&& (input@.len() > 0 && from_rate == to_rate ==> s.is_done() && s.out_seq()
                    == input@)
                &&& (input@.len() > 0 && from_rate != to_rate ==> !s.is_done() && s.out_seq()
                    == Seq::<u32>::empty() && s.spec_pos() == 0)
            },
    {
        if input.len() == 0 {
            Ok(
                ResampleSession {
                    input,
                    from_rate,
                    to_rate,
                    pos: 0,
                    rem: 0,
                    output: Vec::new(),
                    awaiting: false,
                    done: true,
                },
            )
        } else if from_rate == to_rate {
            let output = input.clone();
            Ok(
                ResampleSession {
                    input,
                    from_rate,
                    to_rate,
                    pos: 0,
                    rem: 0,
                    output,
                    awaiting: false,
                    done: true,
                },
            )
        } else if from_rate == 0 || from_rate > RATE_LIMIT || to_rate == 0 || to_rate
            > RATE_LIMIT {
            Err(ResampleError::InvalidRates)
        } else {
            Ok(
                ResampleSession {
                    input,
                    from_rate,
                    to_rate,
                    pos: 0,
                    rem: 0,
                    output: Vec::new(),
                    awaiting: false,
                    done: false,
                },
            )
        }
    }

    /// Hand out the next window to convert: the next [`WINDOW_SIZE`]
    /// input samples, or — for a final shorter remainder — those samples
    /// padded with zeros to the full window size.  When no input is left
    /// the session completes and `None` is returned.
    pub fn next_window(&mut self) -> (w: Option<Vec<u32>>)
        requires
            old(self).wf(),
            !old(self).is_awaiting(),
        ensures
            final(self).wf(),
            final(self).inp() == old(self).inp(),
            final(self).from_rate() == old(self).from_rate(),
            final(self).to_rate() == old(self).to_rate(),
            final(self).out_seq() == old(self).out_seq(),
            w is None <==> (old(self).is_done() || old(self).spec_pos() == old(self).inp().len()),
            w is None ==> final(self).is_done() && !final(self).is_awaiting(),
            w matches Some(win) ==> {
                let p = old(self).spec_pos();
                let len = old(self).inp().len() as int;
                &&& win@.len() == WINDOW_SIZE
                &&& final(self).is_awaiting()
                &&& !final(self).is_done()
                &&& (if p + WINDOW_SIZE <= len {
                    &&& win@ == old(self).inp().subrange(p, p + WINDOW_SIZE)
                    &&& final(self).spec_pos() == p + WINDOW_SIZE
                    &&& final(self).pending_rem() == 0
                } else {
                    &&& win@ == old(self).inp().subrange(p, len) + zero_samples(
                        WINDOW_SIZE - (len - p),
                    )
                    &&& final(self).spec_pos() == len
                    &&& final(self).pending_rem() == len - p
                })
            },
    {
        if self.done || self.pos == self.input.len() {
            self.done = true;
            self.rem = 0;
            return None;
        }
        let len = self.input.len();
        let remaining = len - self.pos;
        let take = if remaining >= WINDOW_SIZE {
            WINDOW_SIZE
        } else {
            remaining
        };
        let mut win: Vec<u32> = Vec::new();
        let mut i: usize = 0;
        while i < take
            invariant
                i <= take,
                take <= remaining,
                remaining == len - self.pos,
                len == self.input@.len(),
                self.pos + take <= len,
                win@.len() == i,
                forall|j: int| 0 <= j < i ==> win@[j] == self.input@[self.pos + j],
            decreases take - i,
        {
            win.push(self.input[self.pos + i]);
            i += 1;
        }
        while win.len() < WINDOW_SIZE
            invariant
                take <= win@.len() <= WINDOW_SIZE,
                forall|j: int| 0 <= j < take ==> win@[j] == self.input@[self.pos + j],
                forall|j: int| take <= j < win@.len() ==> win@[j] == 0u32,
            decreases WINDOW_SIZE - win@.len(),
        {
            win.push(0u32);
        }
        if remaining >= WINDOW_SIZE {
            self.rem = 0;
            self.pos = self.pos + WINDOW_SIZE;
            assert(win@ =~= self.input@.subrange(
                self.pos - WINDOW_SIZE,
                self.pos as int,
            ));
        } else {
            self.rem = remaining;
            self.pos = len;
            assert(win@ =~= self.input@.subrange(len - remaining, len as int) + zero_samples(
                WINDOW_SIZE - remaining,
            ));
        }
        self.awaiting = true;
        Some(win)
    }

    /// Hand back the conversion of the window handed out last.  A full
    /// window's conversion is appended whole; of the padded final
    /// window's conversion only the proportional share described by
    /// [`partial_keep`] is kept, so the zero padding adds no trailing
    /// converted silence.
    pub fn push_output(&mut self, converted: Vec<u32>)
        requires
            old(self).wf(),
            old(self).is_awaiting(),
        ensures
            final(self).wf(),
            !final(self).is_awaiting(),
            !final(self).is_done(),
            final(self).inp() == old(self).inp(),
            final(self).from_rate() == old(self).from_rate(),
            final(self).to_rate() == old(self).to_rate(),
            final(self).spec_pos() == old(self).spec_pos(),
            final(self).out_seq() == old(self).out_seq() + (if old(self).pending_rem() == 0 {
                converted@
            } else {
                converted@.take(
                    partial_keep(
                        old(self).pending_rem(),
                        old(self).from_rate(),
                        old(self).to_rate(),
                        converted@.len() as int,
                    ),
                )
            }),
    {
        let mut converted = converted;
        if self.rem > 0 {
            proof {
                assert((self.rem as int) * (self.to_rate as int) <= 1023 * 1000000int)
                    by (nonlinear_arith)
                    requires
                        self.rem < 1024,
                        self.to_rate <= 1000000,
                ;
            }
            let expected = (self.rem * self.to_rate) / self.from_rate;
            if expected < converted.len() {
                converted.truncate(expected);
            }
            assert(converted@ =~= converted@.take(converted@.len() as int));
        }
        self.output.append(&mut converted);
        self.rem = 0;
        self.awaiting = false;
    }

    /// Whether the conversion is complete.
    pub fn finished(&self) -> (r: bool)
        ensures
            r == self.is_done(),
    {
        self.done
    }

    /// The converted samples of a completed session.
    pub fn take_output(self) -> (r: Vec<u32>)
        requires
            self.is_done(),
        ensures
            r@ == self.out_seq(),
    {
        self.output
    }
}

/// Whether samples captured at the given device rate must be converted
/// before they are handed to a backend.
pub fn needs_resample(device_rate: u32) -> (r: bool)
    ensures
        r == (device_rate != TARGET_SAMPLE_RATE),
{
    device_rate != TARGET_SAMPLE_RATE
}

} // verus!
