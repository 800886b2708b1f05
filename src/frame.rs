//! Fixed-size blocks of PCM samples, the unit that flows through the pipeline.
use itertools::Itertools;
use vstd::prelude::*;

verus! {

/// One PCM sample, held as the IEEE-754 bit pattern of a 32-bit float.
///
/// The pipeline only moves, pads and reorders samples; it never does
/// arithmetic on them, so the bit pattern is all it needs. The pattern `0`
/// is the float `0.0`, which is what padding writes.
pub type Sample = u32;

/// Number of samples in one block.
pub const FRAME_SIZE: usize = 1024;

/// Sample rate assumed for raw PCM input.
pub const SAMPLE_RATE: u32 = 44100;

pub const NANOS_PER_SEC: u128 = 1_000_000_000;

/// The items of `a` and `b` taken in turn, starting with `a`; once one of
/// them runs out, the rest of the other follows.
pub open spec fn interleaved(a: Seq<Sample>, b: Seq<Sample>) -> Seq<Sample>
    decreases a.len() + b.len(),
{
    if a.len() == 0 {
        b
    } else {
        seq![a[0]] + interleaved(b, a.drop_first())
    }
}

pub proof fn lemma_interleaved(a: Seq<Sample>, b: Seq<Sample>)
    ensures
        interleaved(a, b).len() == a.len() + b.len(),
        forall|i: int|
            0 <= i < a.len() && i <= b.len() ==> #[trigger] interleaved(a, b)[2 * i] == a[i],
        forall|i: int|
            0 <= i < b.len() && i < a.len() ==> #[trigger] interleaved(a, b)[2 * i + 1] == b[i],
    decreases a.len() + b.len(),
{
    if a.len() > 0 {
        let rest = a.drop_first();
        lemma_interleaved(b, rest);
        let r = interleaved(a, b);
        let r2 = interleaved(b, rest);
        assert(r == seq![a[0]] + r2);
        assert forall|i: int| 0 <= i < a.len() && i <= b.len() implies r[2 * i] == a[i] by {
            if i > 0 {
                assert(r[2 * i] == r2[2 * (i - 1) + 1]);
            }
        }
        assert forall|i: int| 0 <= i < b.len() && i < a.len() implies r[2 * i + 1] == b[i] by {
            assert(r[2 * i + 1] == r2[2 * i]);
        }
    }
}

/// Relies on itertools' `Itertools::interleave`: it yields the items of the
/// two iterators in turn, starting with the first, until both have run out.
#[verifier::external_body]
fn interleave_samples(a: Vec<Sample>, b: Vec<Sample>) -> (r: Vec<Sample>)
    ensures
        r@ == interleaved(a@, b@),
{
    a.into_iter().interleave(b).collect()
}

/// What a frame holds, as seen by contracts.
pub struct FrameView {
    /// The samples not yet read.
    pub samples: Seq<Sample>,
    pub channels: u16,
    pub sample_rate: u32,
    pub duration_ns: u128,
    /// Length, in samples, of the block the frame was cut as. Channel
    /// layout does not enter it: a block of `FRAME_SIZE` samples rendered to
    /// stereo still has size `FRAME_SIZE`.
    pub size: nat,
}

/// A block of interleaved PCM samples with its format, read front to back.
#[derive(Debug)]
pub struct SoundFrame {
    data: Vec<Sample>,
    position: usize,
    duration_ns: u128,
    channels: u16,
    sample_rate: u32,
    size: usize,
}

impl View for SoundFrame {
    type V = FrameView;

    closed spec fn view(&self) -> FrameView {
        FrameView {
            samples: self.data@.subrange(self.position as int, self.data@.len() as int),
            channels: self.channels,
            sample_rate: self.sample_rate,
            duration_ns: self.duration_ns,
            size: self.size as nat,
        }
    }
}

impl Clone for SoundFrame {
    fn clone(&self) -> (r: SoundFrame)
        ensures
            r@ == self@,
    {
        proof {
            use_type_invariant(self);
        }
        let data = self.data.clone();
        assert(data@ =~= self.data@);
        SoundFrame {
            data,
            position: self.position,
            duration_ns: self.duration_ns,
            channels: self.channels,
            sample_rate: self.sample_rate,
            size: self.size,
        }
    }
}

impl SoundFrame {
    #[verifier::type_invariant]
    spec fn inv(self) -> bool {
        self.position <= self.data.len()
    }

    /// A frame that holds `data`, cut as a block of `data.len()` samples.
    pub fn new(data: Vec<Sample>, channels: u16, sample_rate: u32, duration_ns: u128) -> (r:
        SoundFrame)
        ensures
            r@ == (FrameView {
                samples: data@,
                channels,
                sample_rate,
                duration_ns,
                size: data@.len(),
            }),
    {
        let size = data.len();
        let r = SoundFrame { data, position: 0, duration_ns, channels, sample_rate, size };
        assert(r@.samples =~= r.data@);
        r
    }

    pub fn empty() -> (r: SoundFrame)
        ensures
            r@ == (FrameView {
                samples: Seq::empty(),
                channels: 0,
                sample_rate: 0,
                duration_ns: 0,
                size: 0,
            }),
    {
        let r = SoundFrame {
            data: Vec::new(),
            position: 0,
            duration_ns: 0,
            channels: 0,
            sample_rate: 0,
            size: 0,
        };
        assert(r@.samples =~= Seq::<Sample>::empty());
        r
    }

    /// Number of samples not yet read.
    pub fn len(&self) -> (r: usize)
        ensures
            r == self@.samples.len(),
    {
        proof {
            use_type_invariant(self);
        }
        self.data.len() - self.position
    }

    /// The sample `i` places after the read position.
    pub fn sample_at(&self, i: usize) -> (r: Sample)
        requires
            i < self@.samples.len(),
        ensures
            r == self@.samples[i as int],
    {
        proof {
            use_type_invariant(self);
        }
        self.data[self.position + i]
    }

    /// A copy of the samples not yet read.
    pub fn samples(&self) -> (r: Vec<Sample>)
        ensures
            r@ == self@.samples,
    {
        proof {
            use_type_invariant(self);
        }
        let mut r: Vec<Sample> = Vec::new();
        let mut i: usize = self.position;
        while i < self.data.len()
            invariant
                self.position <= i <= self.data.len(),
                r@ == self.data@.subrange(self.position as int, i as int),
            decreases self.data.len() - i,
        {
            r.push(self.data[i]);
            i = i + 1;
            assert(r@ =~= self.data@.subrange(self.position as int, i as int));
        }
        r
    }

    /// Reads the next sample.
    pub fn next(&mut self) -> (r: Option<Sample>)
        ensures
            old(self)@.samples.len() == 0 ==> r.is_none() && final(self)@ == old(self)@,
            old(self)@.samples.len() > 0 ==> r == Some(old(self)@.samples[0]) && final(self)@ == (
            FrameView { samples: old(self)@.samples.drop_first(), ..old(self)@ }),
    {
        proof {
            use_type_invariant(&*self);
        }
        if self.position < self.data.len() {
            let s = self.data[self.position];
            self.position = self.position + 1;
            assert(self@.samples =~= old(self)@.samples.drop_first());
            Some(s)
        } else {
            None
        }
    }

    /// The same frame, recorded as cut from a block of `size` samples.
    pub(crate) fn with_block_size(self, size: usize) -> (r: SoundFrame)
        ensures
            r@ == (FrameView { size: size as nat, ..self@ }),
    {
        proof {
            use_type_invariant(&self);
        }
        let mut r = self;
        r.size = size;
        r
    }

    /// Moves the read position `n` samples on.
    pub(crate) fn skip(&mut self, n: usize)
        requires
            n <= old(self)@.samples.len(),
        ensures
            final(self)@ == (FrameView { samples: old(self)@.samples.skip(n as int), ..old(self)@ }),
    {
        proof {
            use_type_invariant(&*self);
        }
        self.position = self.position + n;
        assert(self@.samples =~= old(self)@.samples.skip(n as int));
    }

    /// Exact bounds on the number of samples left to read.
    pub fn size_hint(&self) -> (r: (usize, Option<usize>))
        ensures
            r == (self@.samples.len() as usize, Some(self@.samples.len() as usize)),
    {
        let n = self.len();
        (n, Some(n))
    }

    /// Frames carry no inner frame boundaries.
    pub fn current_frame_len(&self) -> (r: Option<usize>)
        ensures
            r.is_none(),
    {
        None
    }

    pub fn channels(&self) -> (r: u16)
        ensures
            r == self@.channels,
    {
        self.channels
    }

    pub fn sample_rate(&self) -> (r: u32)
        ensures
            r == self@.sample_rate,
    {
        self.sample_rate
    }

    /// Playing time of the block, in nanoseconds.
    pub fn total_duration(&self) -> (r: Option<u128>)
        ensures
            r == Some(self@.duration_ns),
    {
        Some(self.duration_ns)
    }

    /// Length, in samples, of the block the frame was cut as.
    pub fn size(&self) -> (r: usize)
        ensures
            r == self@.size,
    {
        self.size
    }

    /// Turns planar stereo (all left samples, then all right samples) into
    /// interleaved stereo. With an odd count the last sample is dropped.
    pub fn interleave(self) -> (r: SoundFrame)
        requires
            self@.samples.len() >= 2,
        ensures
            r@ == (FrameView {
                samples: planar_to_interleaved(self@.samples),
                ..self@
            }),
    {
        let all = self.samples();
        let n = all.len();
        let half = n / 2;
        let mut left: Vec<Sample> = Vec::new();
        let mut right: Vec<Sample> = Vec::new();
        let mut i: usize = 0;
        while i < half
            invariant
                n == all@.len(),
                half == n / 2,
                i <= half,
                left@ == all@.subrange(0, i as int),
                right@ == all@.subrange(half as int, half + i),
            decreases half - i,
        {
            left.push(all[i]);
            right.push(all[half + i]);
            i = i + 1;
            assert(left@ =~= all@.subrange(0, i as int));
            assert(right@ =~= all@.subrange(half as int, half + i));
        }
        let data = interleave_samples(left, right);
        let r = SoundFrame {
            data,
            position: 0,
            duration_ns: self.duration_ns,
            channels: self.channels,
            sample_rate: self.sample_rate,
            size: self.size,
        };
        assert(r@.samples =~= r.data@);
        r
    }

    /// Duplicates every sample into a left and a right channel.
    pub fn mono_to_stereo(self) -> (r: SoundFrame)
        ensures
            r@ == (FrameView {
                samples: interleaved(self@.samples, self@.samples),
                channels: 2,
                ..self@
            }),
    {
        let a = self.samples();
        let b = self.samples();
        let data = interleave_samples(a, b);
        let r = SoundFrame {
            data,
            position: 0,
            duration_ns: self.duration_ns,
            channels: 2,
            sample_rate: self.sample_rate,
            size: self.size,
        };
        assert(r@.samples =~= r.data@);
        r
    }
}

/// Planar stereo (left half, then right half) taken in turn sample by sample.
pub open spec fn planar_to_interleaved(s: Seq<Sample>) -> Seq<Sample> {
    let half = (s.len() / 2) as int;
    interleaved(s.subrange(0, half), s.subrange(half, 2 * half))
}

} // verus!
