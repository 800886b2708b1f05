//! A decoded clip, split into fixed-size blocks and read through a cursor.
use crate::frame::{FrameView, Sample, SoundFrame, FRAME_SIZE, NANOS_PER_SEC};
use vstd::prelude::*;

verus! {

/// Number of blocks that `len` samples fill.
pub open spec fn block_count(len: nat) -> nat {
    ((len + FRAME_SIZE - 1) / FRAME_SIZE as int) as nat
}

/// Block `i` of `data`: `FRAME_SIZE` samples, zeros past the end of `data`.
pub open spec fn block_samples(data: Seq<Sample>, i: int) -> Seq<Sample> {
    Seq::new(
        FRAME_SIZE as nat,
        |j: int|
            if i * FRAME_SIZE + j < data.len() {
                data[i * FRAME_SIZE + j]
            } else {
                0
            },
    )
}

/// Playing time of one block, in nanoseconds.
pub open spec fn block_duration_ns(channels: u16, sample_rate: u32) -> u128 {
    (NANOS_PER_SEC * FRAME_SIZE / (sample_rate * channels)) as u128
}

/// Playing time of `len` interleaved samples, in nanoseconds.
pub open spec fn clip_duration_ns(len: nat, channels: u16, sample_rate: u32) -> u128 {
    (NANOS_PER_SEC * len / (sample_rate * channels)) as u128
}

/// Block `i` of `data` as a frame.
pub open spec fn decoded_block(data: Seq<Sample>, i: int, channels: u16, sample_rate: u32) -> FrameView {
    FrameView {
        samples: block_samples(data, i),
        channels,
        sample_rate,
        duration_ns: block_duration_ns(channels, sample_rate),
        size: FRAME_SIZE as nat,
    }
}

/// Blocks of `FRAME_SIZE` samples laid end to end: sample `k` is sample
/// `k % FRAME_SIZE` of block `k / FRAME_SIZE`.
pub proof fn lemma_flatten_blocks(blocks: Seq<Seq<Sample>>)
    requires
        forall|i: int| 0 <= i < blocks.len() ==> (#[trigger] blocks[i]).len() == FRAME_SIZE,
    ensures
        blocks.flatten().len() == blocks.len() * FRAME_SIZE,
        forall|k: int|
            0 <= k < blocks.len() * FRAME_SIZE ==> #[trigger] blocks.flatten()[k] == blocks[k
                / FRAME_SIZE as int][k % FRAME_SIZE as int],
    decreases blocks.len(),
{
    if blocks.len() > 0 {
        let pre = blocks.drop_last();
        let last = blocks.last();
        lemma_flatten_blocks(pre);
        assert(blocks == pre.push(last));
        pre.lemma_flatten_push(last);
        assert forall|k: int| 0 <= k < blocks.len() * FRAME_SIZE implies #[trigger] blocks.flatten()[k]
            == blocks[k / FRAME_SIZE as int][k % FRAME_SIZE as int] by {
            if k < pre.len() * FRAME_SIZE {
                assert(blocks.flatten()[k] == pre.flatten()[k]);
            } else {
                assert(blocks.flatten()[k] == last[k - pre.len() * FRAME_SIZE]);
            }
        }
    } else {
        assert(blocks.flatten() =~= Seq::<Sample>::empty());
    }
}

/// Splitting a clip into blocks loses nothing and adds nothing but zeros:
/// there are just enough blocks to hold it, and laid end to end they give
/// the clip followed by zero padding.
pub proof fn lemma_blocks_cover_input(data: Seq<Sample>)
    requires
        data.len() > 0,
    ensures
        ({
            let flat = Seq::new(block_count(data.len()), |i: int| block_samples(data, i)).flatten();
            &&& flat.len() == block_count(data.len()) * FRAME_SIZE
            &&& data.len() <= flat.len() < data.len() + FRAME_SIZE
            &&& flat.take(data.len() as int) == data
            &&& forall|k: int| data.len() <= k < flat.len() ==> flat[k] == 0
        }),
{
    let blocks = Seq::new(block_count(data.len()), |i: int| block_samples(data, i));
    lemma_flatten_blocks(blocks);
    let flat = blocks.flatten();
    assert forall|k: int| 0 <= k < flat.len() implies flat[k] == if k < data.len() {
        data[k]
    } else {
        0
    } by {
        let i = k / FRAME_SIZE as int;
        let j = k % FRAME_SIZE as int;
        assert(flat[k] == blocks[i][j]);
        assert(i * FRAME_SIZE + j == k);
    }
    assert(flat.take(data.len() as int) =~= data);
}

/// The sound decoded from `data`: its blocks in order, the cursor before
/// the first.
pub open spec fn decoded_sound(data: Seq<Sample>, channels: u16, sample_rate: u32) -> SoundView {
    SoundView {
        blocks: Seq::new(block_count(data.len()), |i: int| decoded_block(data, i, channels, sample_rate)),
        block: 0,
        offset: 0,
        channels,
        sample_rate,
        duration_ns: clip_duration_ns(data.len(), channels, sample_rate),
    }
}

/// What a sound holds, as seen by contracts.
pub struct SoundView {
    pub blocks: Seq<FrameView>,
    /// Index of the block the cursor is in.
    pub block: nat,
    /// Samples of that block already read one by one.
    pub offset: nat,
    pub channels: u16,
    pub sample_rate: u32,
    pub duration_ns: u128,
}

/// True while the cursor has a block left to hand out.
pub open spec fn has_frame(s: SoundView) -> bool {
    s.block < s.blocks.len()
}

/// The frame the cursor hands out next: the rest of the current block.
pub open spec fn head_frame(s: SoundView) -> FrameView {
    FrameView { samples: s.blocks[s.block as int].samples.skip(s.offset as int), ..s.blocks[s.block as int] }
}

/// The sound once the current block has been handed out.
pub open spec fn after_frame(s: SoundView) -> SoundView {
    if has_frame(s) {
        SoundView { block: s.block + 1, offset: 0, ..s }
    } else {
        s
    }
}

/// The sound once one more sample has been read.
pub open spec fn after_sample(s: SoundView) -> SoundView {
    if !has_frame(s) {
        s
    } else if s.offset + 1 < FRAME_SIZE {
        SoundView { offset: s.offset + 1, ..s }
    } else {
        SoundView { block: s.block + 1, offset: 0, ..s }
    }
}

/// A decoded clip: its blocks in order and a cursor into them.
///
/// Each value owns its cursor, so copies of one clip play independently.
#[derive(Debug)]
pub struct Sound {
    frames: Vec<SoundFrame>,
    block: usize,
    offset: usize,
    channels: u16,
    sample_rate: u32,
    duration_ns: u128,
}

impl View for Sound {
    type V = SoundView;

    closed spec fn view(&self) -> SoundView {
        SoundView {
            blocks: self.frames@.map_values(|f: SoundFrame| f@),
            block: self.block as nat,
            offset: self.offset as nat,
            channels: self.channels,
            sample_rate: self.sample_rate,
            duration_ns: self.duration_ns,
        }
    }
}

/// The state every sound keeps: full blocks of one format, and a cursor
/// that stays inside them.
pub open spec fn sound_wf(s: SoundView) -> bool {
    &&& s.block <= s.blocks.len()
    &&& s.offset < FRAME_SIZE
    &&& s.block == s.blocks.len() ==> s.offset == 0
    &&& forall|i: int|
        0 <= i < s.blocks.len() ==> {
            &&& (#[trigger] s.blocks[i]).samples.len() == FRAME_SIZE
            &&& s.blocks[i].channels == s.channels
            &&& s.blocks[i].sample_rate == s.sample_rate
        }
}

impl Clone for Sound {
    fn clone(&self) -> (r: Sound)
        ensures
            r@ == self@,
    {
        proof {
            use_type_invariant(self);
        }
        let mut frames: Vec<SoundFrame> = Vec::new();
        let mut i: usize = 0;
        while i < self.frames.len()
            invariant
                i <= self.frames.len(),
                frames@.len() == i,
                forall|k: int| 0 <= k < i ==> #[trigger] frames@[k]@ == self.frames@[k]@,
            decreases self.frames.len() - i,
        {
            frames.push(self.frames[i].clone());
            i = i + 1;
        }
        assert(frames@.map_values(|f: SoundFrame| f@) =~= self.frames@.map_values(
            |f: SoundFrame| f@,
        ));
        let r = Sound {
            frames,
            block: self.block,
            offset: self.offset,
            channels: self.channels,
            sample_rate: self.sample_rate,
            duration_ns: self.duration_ns,
        };
        r
    }
}

impl Sound {
    #[verifier::type_invariant]
    spec fn inv(self) -> bool {
        sound_wf(self@)
    }

    /// Splits `data` into blocks of `FRAME_SIZE` samples, padding the last
    /// one with zeros, and puts the cursor before the first.
    pub fn new(data: Vec<Sample>, channels: u16, sample_rate: u32) -> (r: Sound)
        requires
            data@.len() > 0,
            channels > 0,
            sample_rate > 0,
        ensures
            r@ == decoded_sound(data@, channels, sample_rate),
    {
        let len = data.len();
        assert(sample_rate as u128 * channels as u128 <= 0xffff_ffff_u128 * 0xffff_u128)
            by (nonlinear_arith);
        let rate_channels: u128 = sample_rate as u128 * channels as u128;
        assert(rate_channels > 0) by (nonlinear_arith)
            requires
                rate_channels == sample_rate as u128 * channels as u128,
                sample_rate > 0,
                channels > 0,
        ;
        let block_ns: u128 = NANOS_PER_SEC * FRAME_SIZE as u128 / rate_channels;
        let clip_ns: u128 = NANOS_PER_SEC * len as u128 / rate_channels;
        let count: usize = len / FRAME_SIZE + if len % FRAME_SIZE == 0 {
            0
        } else {
            1
        };
        assert(count == block_count(len as nat));
        let mut frames: Vec<SoundFrame> = Vec::new();
        let mut i: usize = 0;
        while i < count
            invariant
                len == data@.len(),
                count == block_count(len as nat),
                block_ns == block_duration_ns(channels, sample_rate),
                i <= count,
                frames@.len() == i,
                forall|k: int|
                    0 <= k < i ==> #[trigger] frames@[k]@ == decoded_block(
                        data@,
                        k,
                        channels,
                        sample_rate,
                    ),
            decreases count - i,
        {
            let start: usize = i * FRAME_SIZE;
            let left: usize = len - start;
            let mut block: Vec<Sample> = Vec::new();
            let mut j: usize = 0;
            while j < FRAME_SIZE
                invariant
                    len == data@.len(),
                    start == i * FRAME_SIZE,
                    start < len,
                    left == len - start,
                    j <= FRAME_SIZE,
                    block@ =~= block_samples(data@, i as int).take(j as int),
                decreases FRAME_SIZE - j,
            {
                if j < left {
                    block.push(data[start + j]);
                } else {
                    block.push(0);
                }
                j = j + 1;
                assert(block@ =~= block_samples(data@, i as int).take(j as int));
            }
            assert(block@ =~= block_samples(data@, i as int));
            let frame = SoundFrame::new(block, channels, sample_rate, block_ns);
            frames.push(frame);
            i = i + 1;
        }
        let r = Sound { frames, block: 0, offset: 0, channels, sample_rate, duration_ns: clip_ns };
        assert(r@.blocks =~= decoded_sound(data@, channels, sample_rate).blocks);
        r
    }

    /// Hands out the rest of the current block and moves the cursor to the
    /// next one; `None` once every block has been handed out.
    pub fn next_frame(&mut self) -> (r: Option<SoundFrame>)
        ensures
            has_frame(old(self)@) ==> r.is_some() && r.unwrap()@ == head_frame(old(self)@),
            !has_frame(old(self)@) ==> r.is_none(),
            final(self)@ == after_frame(old(self)@),
    {
        proof {
            use_type_invariant(&*self);
        }
        if self.block < self.frames.len() {
            assert(self@.blocks[self.block as int] == self.frames@[self.block as int]@);
            let mut frame = self.frames[self.block].clone();
            frame.skip(self.offset);
            self.offset = 0;
            self.block = self.block + 1;
            assert(self@.blocks =~= old(self)@.blocks);
            Some(frame)
        } else {
            None
        }
    }

    /// Reads one sample and moves the cursor past it.
    pub fn next(&mut self) -> (r: Option<Sample>)
        ensures
            has_frame(old(self)@) ==> r == Some(
                old(self)@.blocks[old(self)@.block as int].samples[old(self)@.offset as int],
            ),
            !has_frame(old(self)@) ==> r.is_none(),
            final(self)@ == after_sample(old(self)@),
    {
        proof {
            use_type_invariant(&*self);
        }
        if self.block < self.frames.len() {
            assert(self@.blocks[self.block as int] == self.frames@[self.block as int]@);
            let s = self.frames[self.block].sample_at(self.offset);
            if self.offset + 1 < FRAME_SIZE {
                self.offset = self.offset + 1;
            } else {
                self.offset = 0;
                self.block = self.block + 1;
            }
            assert(self@.blocks =~= old(self)@.blocks);
            Some(s)
        } else {
            None
        }
    }

    /// Puts the cursor back before the first block.
    pub fn rewind(&mut self)
        ensures
            final(self)@ == (SoundView { block: 0, offset: 0, ..old(self)@ }),
    {
        proof {
            use_type_invariant(&*self);
        }
        self.offset = 0;
        self.block = 0;
        assert(self@.blocks =~= old(self)@.blocks);
    }

    /// True while a block is left to hand out.
    pub fn has_next_frame(&self) -> (r: bool)
        ensures
            r == has_frame(self@),
    {
        self.block < self.frames.len()
    }

    /// Exact bounds on the number of blocks not yet handed out.
    pub fn size_hint(&self) -> (r: (usize, Option<usize>))
        ensures
            r == ((self@.blocks.len() - self@.block) as usize, Some(
                (self@.blocks.len() - self@.block) as usize,
            )),
    {
        proof {
            use_type_invariant(self);
        }
        let n = self.frames.len() - self.block;
        (n, Some(n))
    }

    /// A sound carries no inner frame boundaries.
    pub fn current_frame_len(&self) -> (r: Option<usize>)
        ensures
            r.is_none(),
    {
        None
    }

    pub fn channels(&self) -> (r: u16)
        ensures
            r == self@.channels,
    {
        self.channels
    }

    pub fn sample_rate(&self) -> (r: u32)
        ensures
            r == self@.sample_rate,
    {
        self.sample_rate
    }

    /// Playing time of the whole clip, in nanoseconds.
    pub fn total_duration(&self) -> (r: Option<u128>)
        ensures
            r == Some(self@.duration_ns),
    {
        Some(self.duration_ns)
    }
}

} // verus!
