//! Receivers: where sources are heard from, and the frames heard this tick.
use crate::emitter::Emitter;
use crate::frame::{lemma_interleaved, planar_to_interleaved, FrameView, Sample, SoundFrame};
use crate::geometry::{
    direct_params, direct_params_at, dist_sq, distance_squared, lemma_dist_sq_fits,
    lemma_gain_decreases_with_distance, offset, offset_between, ratio_gt, DirectParams, Offset,
    Transform, Vec3,
};
use vstd::prelude::*;

verus! {

/// What the spatializer needs to render one source for one receiver.
#[derive(Debug, Clone, Copy, PartialEq, Eq, Structural)]
pub struct SpatialParams {
    /// From the receiver to the source, in millimetres.
    pub direction: Offset,
    /// The way the receiver faces.
    pub forward: Vec3,
    pub direct: DirectParams,
}

/// The rendering settings for a source at `source` heard from `receiver`;
/// `None` where the two coincide, as the inverse-distance gain has no value
/// at distance zero.
pub open spec fn spatial_params_for(receiver: Transform, source: Transform) -> Option<
    SpatialParams,
> {
    let d = dist_sq(receiver.pos, source.pos);
    if d == 0 {
        None
    } else {
        Some(
            SpatialParams {
                direction: offset_between(receiver.pos, source.pos),
                forward: receiver.forward,
                direct: direct_params_at(d),
            },
        )
    }
}

/// The frame heard once the spatializer has rendered `frame` as planar
/// stereo `rendered` (all left samples, then all right samples): the two
/// channels interleaved, in the frame's own format otherwise. `None` when
/// rendering failed or gave a buffer of the wrong length, and for a frame
/// with no samples.
pub open spec fn convolved(frame: FrameView, rendered: Option<Seq<Sample>>) -> Option<FrameView> {
    match rendered {
        Some(p) => if frame.samples.len() > 0 && p.len() == 2 * frame.samples.len() {
            Some(FrameView { samples: planar_to_interleaved(p), channels: 2, ..frame })
        } else {
            None
        },
        None => None,
    }
}

pub open spec fn samples_view(v: Option<Vec<Sample>>) -> Option<Seq<Sample>> {
    match v {
        Some(p) => Some(p@),
        None => None,
    }
}

/// Rendering a mono frame of `n` samples gives a two-channel frame of the
/// same block size, rate and duration with `2 * n` samples: left sample `i`
/// at `2 * i`, right sample `i` at `2 * i + 1`.
pub proof fn lemma_convolution_shape(frame: FrameView, planar: Seq<Sample>)
    requires
        frame.samples.len() > 0,
        planar.len() == 2 * frame.samples.len(),
    ensures
        convolved(frame, Some(planar)) is Some,
        ({
            let out = convolved(frame, Some(planar)).unwrap();
            let n = frame.samples.len() as int;
            &&& out.channels == 2
            &&& out.size == frame.size
            &&& out.sample_rate == frame.sample_rate
            &&& out.duration_ns == frame.duration_ns
            &&& out.samples.len() == 2 * n
            &&& forall|i: int|
                0 <= i < n ==> out.samples[2 * i] == #[trigger] planar[i] && out.samples[2 * i
                    + 1] == planar[n + i]
        }),
{
    let n = frame.samples.len() as int;
    let left = planar.subrange(0, n);
    let right = planar.subrange(n, 2 * n);
    lemma_interleaved(left, right);
    assert(planar_to_interleaved(planar) == crate::frame::interleaved(left, right));
}

/// The heard frame depends on the frame, the render and the positions
/// alone: the same inputs give the same settings and the same frame.
pub proof fn lemma_convolution_deterministic(
    frame1: FrameView,
    frame2: FrameView,
    rendered1: Option<Seq<Sample>>,
    rendered2: Option<Seq<Sample>>,
    receiver1: Transform,
    receiver2: Transform,
    source1: Transform,
    source2: Transform,
)
    requires
        frame1 == frame2,
        rendered1 == rendered2,
        receiver1 == receiver2,
        source1 == source2,
    ensures
        spatial_params_for(receiver1, source1) == spatial_params_for(receiver2, source2),
        convolved(frame1, rendered1) == convolved(frame2, rendered2),
{
}

/// Heard from one receiver, a nearer source gets a strictly larger
/// inverse-distance gain than a farther one, and both gains are positive.
pub proof fn lemma_nearer_source_is_louder(receiver: Transform, near: Transform, far: Transform)
    requires
        0 < dist_sq(receiver.pos, near.pos) < dist_sq(receiver.pos, far.pos),
    ensures
        spatial_params_for(receiver, near) is Some,
        spatial_params_for(receiver, far) is Some,
        ({
            let a = spatial_params_for(receiver, near).unwrap().direct.attenuation_sq;
            let b = spatial_params_for(receiver, far).unwrap().direct.attenuation_sq;
            &&& a.num > 0 && a.den > 0
            &&& b.num > 0 && b.den > 0
            &&& ratio_gt(a, b)
        }),
{
    lemma_dist_sq_fits(receiver.pos, far.pos);
    lemma_gain_decreases_with_distance(
        dist_sq(receiver.pos, near.pos),
        dist_sq(receiver.pos, far.pos),
    );
}

/// What a receiver holds, as seen by contracts.
pub struct ListenerView {
    pub transform: Transform,
    /// Frames heard and not yet mixed, oldest first.
    pub queue: Seq<FrameView>,
}

/// A positioned receiver and the frames it has heard this tick.
#[derive(Debug)]
pub struct Listener {
    pub transform: Transform,
    audio_queue: Vec<SoundFrame>,
}

impl View for Listener {
    type V = ListenerView;

    closed spec fn view(&self) -> ListenerView {
        ListenerView {
            transform: self.transform,
            queue: self.audio_queue@.map_values(|f: SoundFrame| f@),
        }
    }
}

impl Listener {
    pub fn new(transform: Transform) -> (r: Listener)
        ensures
            r@ == (ListenerView { transform, queue: Seq::empty() }),
    {
        let r = Listener { transform, audio_queue: Vec::new() };
        assert(r@.queue =~= Seq::<FrameView>::empty());
        r
    }

    /// Hands out every frame heard so far and empties the queue.
    pub fn get_frames(&mut self) -> (r: Vec<SoundFrame>)
        ensures
            r@.map_values(|f: SoundFrame| f@) == old(self)@.queue,
            final(self)@ == (ListenerView { queue: Seq::empty(), ..old(self)@ }),
    {
        let mut r: Vec<SoundFrame> = Vec::new();
        std::mem::swap(&mut self.audio_queue, &mut r);
        assert(self@.queue =~= Seq::<FrameView>::empty());
        r
    }

    /// Queues `frames` after those already heard.
    pub fn add_frames(&mut self, frames: Vec<SoundFrame>)
        ensures
            final(self)@ == (ListenerView {
                queue: old(self)@.queue + frames@.map_values(|f: SoundFrame| f@),
                ..old(self)@
            }),
    {
        let mut frames = frames;
        let ghost added = frames@.map_values(|f: SoundFrame| f@);
        self.audio_queue.append(&mut frames);
        assert(self@.queue =~= old(self)@.queue + added);
    }

    /// Where the receiver is and which way it faces.
    pub fn transform(&self) -> (r: Transform)
        ensures
            r == self@.transform,
    {
        self.transform
    }

    /// Number of frames heard and not yet mixed.
    pub fn queued(&self) -> (r: usize)
        ensures
            r == self@.queue.len(),
    {
        self.audio_queue.len()
    }

    /// Where `emitter` is heard from, and how loud, for the spatializer.
    pub fn spatial_params(&self, emitter: &Emitter) -> (r: Option<SpatialParams>)
        ensures
            r == spatial_params_for(self@.transform, emitter@.transform),
    {
        let source = emitter.transform();
        let d = distance_squared(self.transform.pos, source.pos);
        if d == 0 {
            None
        } else {
            Some(
                SpatialParams {
                    direction: offset(self.transform.pos, source.pos),
                    forward: self.transform.forward,
                    direct: direct_params(d),
                },
            )
        }
    }

    /// Finishes a frame once the spatializer has rendered it to planar
    /// stereo: the channels are interleaved and the frame becomes a
    /// two-channel frame of the same block size, rate and duration. A failed
    /// render (`None`, or a buffer not twice the frame's length) drops the
    /// frame.
    pub fn apply_convolutions(&mut self, frame: SoundFrame, rendered: Option<Vec<Sample>>) -> (r:
        Option<SoundFrame>)
        ensures
            final(self)@ == old(self)@,
            match r {
                Some(f) => convolved(frame@, samples_view(rendered)) == Some(f@),
                None => convolved(frame@, samples_view(rendered)).is_none(),
            },
    {
        match rendered {
            Some(planar) => {
                let n = frame.len();
                if n > 0 && planar.len() / 2 == n && planar.len() % 2 == 0 {
                    let stereo = SoundFrame::new(
                        planar,
                        2,
                        frame.sample_rate(),
                        match frame.total_duration() {
                            Some(d) => d,
                            None => 0,
                        },
                    );
                    let out = stereo.interleave();
                    Some(out.with_block_size(frame.size()))
                } else {
                    None
                }
            },
            None => None,
        }
    }
}

} // verus!
