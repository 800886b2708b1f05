//! The mixer's scheduler: which frames are rendered for whom, and when.
use crate::emitter::{emitter_after_tick, tick_frames, Emitter, EmitterView};
use crate::frame::{FrameView, Sample, SoundFrame};
use crate::library::SoundLibrary;
use crate::listener::{
    convolved, samples_view, spatial_params_for, Listener, ListenerView, SpatialParams,
};
use crate::sound::SoundView;
use vstd::prelude::*;

verus! {

/// A scheduling pass runs only while the playback sink holds fewer blocks
/// than this.
pub const FRAMES_TO_BUFFER: usize = 2;

/// One frame of one source, to be rendered for one receiver.
#[derive(Debug)]
pub struct Pairing {
    /// Id of the receiver.
    pub listener: u32,
    /// Id of the source.
    pub emitter: u32,
    pub frame: SoundFrame,
    /// Rendering settings; `None` where the source sits on the receiver and
    /// the frame cannot be rendered.
    pub params: Option<SpatialParams>,
}

pub struct PairingView {
    pub listener: u32,
    pub emitter: u32,
    pub frame: FrameView,
    pub params: Option<SpatialParams>,
}

impl View for Pairing {
    type V = PairingView;

    open spec fn view(&self) -> PairingView {
        PairingView {
            listener: self.listener,
            emitter: self.emitter,
            frame: self.frame@,
            params: self.params,
        }
    }
}

pub open spec fn pairings_for(
    listener: u32,
    emitter: u32,
    frames: Seq<FrameView>,
    params: Option<SpatialParams>,
) -> Seq<PairingView> {
    frames.map_values(|f: FrameView| PairingView { listener, emitter, frame: f, params })
}

/// The pairings of one source's frames with the first `m` receivers, in id
/// order.
pub open spec fn fan_out(
    listeners: Seq<ListenerView>,
    emitter: u32,
    e: EmitterView,
    m: nat,
) -> Seq<PairingView>
    decreases m,
{
    if m == 0 || m > listeners.len() {
        Seq::empty()
    } else {
        fan_out(listeners, emitter, e, (m - 1) as nat) + pairings_for(
            (m - 1) as u32,
            emitter,
            tick_frames(e.sounds),
            spatial_params_for(listeners[m - 1].transform, e.transform),
        )
    }
}

/// The pairings of a pass over the first `k` sources, in id order: the
/// frames each source gives on its tick, each paired with every receiver.
pub open spec fn scheduling_pass(
    listeners: Seq<ListenerView>,
    emitters: Seq<EmitterView>,
    k: nat,
) -> Seq<PairingView>
    decreases k,
{
    if k == 0 || k > emitters.len() {
        Seq::empty()
    } else {
        scheduling_pass(listeners, emitters, (k - 1) as nat) + fan_out(
            listeners,
            (k - 1) as u32,
            emitters[k - 1],
            listeners.len(),
        )
    }
}

/// Every frame queued at the receivers, receiver by receiver in id order.
pub open spec fn all_queued(listeners: Seq<ListenerView>) -> Seq<FrameView>
    decreases listeners.len(),
{
    if listeners.len() == 0 {
        Seq::empty()
    } else {
        all_queued(listeners.drop_last()) + listeners.last().queue
    }
}

pub open spec fn emptied(listeners: Seq<ListenerView>) -> Seq<ListenerView> {
    listeners.map_values(|l: ListenerView| ListenerView { queue: Seq::empty(), ..l })
}

/// What the system holds, as seen by contracts. A source's or a
/// receiver's id is its index here.
pub struct AudioSystemView {
    pub emitters: Seq<EmitterView>,
    pub listeners: Seq<ListenerView>,
    pub library: Map<Seq<char>, SoundView>,
}

/// The sources and receivers of a scene, and the sounds they can play.
pub struct AudioSystem {
    emitters: Vec<Emitter>,
    listeners: Vec<Listener>,
    library: SoundLibrary,
}

impl View for AudioSystem {
    type V = AudioSystemView;

    closed spec fn view(&self) -> AudioSystemView {
        AudioSystemView {
            emitters: self.emitters@.map_values(|e: Emitter| e@),
            listeners: self.listeners@.map_values(|l: Listener| l@),
            library: self.library@,
        }
    }
}

impl AudioSystem {
    pub fn create_system() -> (r: AudioSystem)
        ensures
            r@.emitters.len() == 0,
            r@.listeners.len() == 0,
            r@.library == Map::<Seq<char>, SoundView>::empty(),
    {
        AudioSystem {
            emitters: Vec::new(),
            listeners: Vec::new(),
            library: SoundLibrary::create_library(),
        }
    }

    pub fn with_emitter(self, emitter: Emitter) -> (r: AudioSystem)
        requires
            self@.emitters.len() < u32::MAX,
        ensures
            r@ == (AudioSystemView { emitters: self@.emitters.push(emitter@), ..self@ }),
    {
        let mut r = self;
        r.register_emitter(emitter);
        r
    }

    pub fn with_library(self, library: SoundLibrary) -> (r: AudioSystem)
        ensures
            r@ == (AudioSystemView { library: library@, ..self@ }),
    {
        AudioSystem { emitters: self.emitters, listeners: self.listeners, library }
    }

    pub fn with_listener(self, listener: Listener) -> (r: AudioSystem)
        requires
            self@.listeners.len() < u32::MAX,
        ensures
            r@ == (AudioSystemView { listeners: self@.listeners.push(listener@), ..self@ }),
    {
        let mut r = self;
        r.register_listener(listener);
        r
    }

    /// Adds a source and returns its id.
    pub fn register_emitter(&mut self, emitter: Emitter) -> (r: u32)
        requires
            old(self)@.emitters.len() < u32::MAX,
        ensures
            r == old(self)@.emitters.len(),
            final(self)@ == (AudioSystemView {
                emitters: old(self)@.emitters.push(emitter@),
                ..old(self)@
            }),
    {
        let uid = self.emitters.len() as u32;
        self.emitters.push(emitter);
        assert(self@.emitters =~= old(self)@.emitters.push(emitter@));
        uid
    }

    /// Adds a receiver and returns its id.
    pub fn register_listener(&mut self, listener: Listener) -> (r: u32)
        requires
            old(self)@.listeners.len() < u32::MAX,
        ensures
            r == old(self)@.listeners.len(),
            final(self)@ == (AudioSystemView {
                listeners: old(self)@.listeners.push(listener@),
                ..old(self)@
            }),
    {
        let uid = self.listeners.len() as u32;
        self.listeners.push(listener);
        assert(self@.listeners =~= old(self)@.listeners.push(listener@));
        uid
    }

    pub fn library(&self) -> (r: &SoundLibrary)
        ensures
            r@ == self@.library,
    {
        &self.library
    }

    /// Adds `pairings_for(listener, emitter, frames, params)` to `out`,
    /// with copies of `frames`.
    fn push_pairings(
        out: &mut Vec<Pairing>,
        listener: u32,
        emitter: u32,
        frames: &Vec<SoundFrame>,
        params: Option<SpatialParams>,
    )
        ensures
            final(out)@.map_values(|p: Pairing| p@) == old(out)@.map_values(|p: Pairing| p@)
                + pairings_for(listener, emitter, frames@.map_values(|f: SoundFrame| f@), params),
    {
        let ghost start = old(out)@.map_values(|p: Pairing| p@);
        let ghost all = pairings_for(
            listener,
            emitter,
            frames@.map_values(|f: SoundFrame| f@),
            params,
        );
        let n = frames.len();
        let mut i: usize = 0;
        while i < n
            invariant
                n == frames@.len(),
                n == all.len(),
                i <= n,
                all == pairings_for(listener, emitter, frames@.map_values(|f: SoundFrame| f@), params),
                out@.map_values(|p: Pairing| p@) =~= start + all.take(i as int),
            decreases n - i,
        {
            let ghost before = out@.map_values(|p: Pairing| p@);
            let f = frames[i].clone();
            let p = Pairing { listener, emitter, frame: f, params };
            out.push(p);
            assert(out@.map_values(|p: Pairing| p@) =~= before.push(p@));
            assert(all.take(i + 1) =~= all.take(i as int).push(all[i as int]));
            i = i + 1;
        }
        assert(all.take(n as int) =~= all);
    }

    /// One scheduling tick. While the sink holds `FRAMES_TO_BUFFER` blocks
    /// or more nothing happens and `None` comes back. Otherwise every
    /// source, in id order, is ticked once, and each frame it gives is
    /// paired with every receiver, in id order, with its rendering settings
    /// for that receiver.
    pub fn update(&mut self, pending_blocks: usize) -> (r: Option<Vec<Pairing>>)
        ensures
            pending_blocks >= FRAMES_TO_BUFFER ==> r.is_none() && final(self)@ == old(self)@,
            pending_blocks < FRAMES_TO_BUFFER ==> {
                &&& r.is_some()
                &&& r.unwrap()@.map_values(|p: Pairing| p@) == scheduling_pass(
                    old(self)@.listeners,
                    old(self)@.emitters,
                    old(self)@.emitters.len(),
                )
                &&& final(self)@ == (AudioSystemView {
                    emitters: old(self)@.emitters.map_values(|e: EmitterView| emitter_after_tick(e)),
                    ..old(self)@
                })
            },
    {
        if pending_blocks >= FRAMES_TO_BUFFER {
            return None;
        }
        let ghost ls = self@.listeners;
        let ghost es = self@.emitters;
        let mut out: Vec<Pairing> = Vec::new();
        let nl = self.listeners.len();
        let ne = self.emitters.len();
        let mut ei: usize = 0;
        while ei < ne
            invariant
                nl == ls.len(),
                ne == es.len(),
                ei <= ne,
                self@.listeners == ls,
                self@.library == old(self)@.library,
                self@.emitters.len() == ne,
                forall|j: int| 0 <= j < ei ==> #[trigger] self@.emitters[j] == emitter_after_tick(es[j]),
                forall|j: int| ei <= j < ne ==> #[trigger] self@.emitters[j] == es[j],
                out@.map_values(|p: Pairing| p@) == scheduling_pass(ls, es, ei as nat),
            decreases ne - ei,
        {
            let ghost e0 = es[ei as int];
            let ghost ps0 = out@.map_values(|p: Pairing| p@);
            let ghost before = self@.emitters;
            assert(before[ei as int] == e0);
            assert(self.emitters@[ei as int]@ == e0);
            let ticked = self.emitters[ei].get_frames();
            assert(self@.emitters =~= before.update(ei as int, emitter_after_tick(e0)));
            let frames: Vec<SoundFrame> = match ticked {
                Some(v) => v,
                None => Vec::new(),
            };
            assert(frames@.map_values(|f: SoundFrame| f@) =~= tick_frames(e0.sounds));
            let mut li: usize = 0;
            while li < nl
                invariant
                    nl == ls.len(),
                    ne == es.len(),
                    ei < ne,
                    li <= nl,
                    e0 == es[ei as int],
                    self@.listeners == ls,
                    self@.library == old(self)@.library,
                    self@.emitters.len() == ne,
                    forall|j: int| 0 <= j <= ei ==> #[trigger] self@.emitters[j] == emitter_after_tick(es[j]),
                    forall|j: int| ei < j < ne ==> #[trigger] self@.emitters[j] == es[j],
                    frames@.map_values(|f: SoundFrame| f@) == tick_frames(e0.sounds),
                    out@.map_values(|p: Pairing| p@) == ps0 + fan_out(ls, ei as u32, e0, li as nat),
                decreases nl - li,
            {
                assert(self@.emitters[ei as int] == emitter_after_tick(e0));
                assert(self.emitters@[ei as int]@ == self@.emitters[ei as int]);
                assert(self.listeners@[li as int]@ == ls[li as int]);
                let params = self.listeners[li].spatial_params(&self.emitters[ei]);
                assert(params == spatial_params_for(ls[li as int].transform, e0.transform));
                Self::push_pairings(&mut out, li as u32, ei as u32, &frames, params);
                assert(fan_out(ls, ei as u32, e0, (li + 1) as nat) == fan_out(ls, ei as u32, e0, li as nat)
                    + pairings_for(li as u32, ei as u32, tick_frames(e0.sounds), params));
                li = li + 1;
            }
            ei = ei + 1;
        }
        assert(self@.emitters =~= es.map_values(|e: EmitterView| emitter_after_tick(e)));
        Some(out)
    }

    /// Finishes one pairing once the spatializer has rendered its frame
    /// (`None` when rendering failed): the receiver queues the frame it
    /// hears. Returns whether a frame was queued; a failed render drops the
    /// frame and touches nothing else.
    pub fn deliver(&mut self, pairing: Pairing, rendered: Option<Vec<Sample>>) -> (r: bool)
        ensures
            ({
                let out = convolved(pairing.frame@, samples_view(rendered));
                let l = pairing.listener as int;
                if l < old(self)@.listeners.len() && out is Some {
                    &&& r
                    &&& final(self)@ == (AudioSystemView {
                        listeners: old(self)@.listeners.update(
                            l,
                            ListenerView {
                                queue: old(self)@.listeners[l].queue.push(out.unwrap()),
                                ..old(self)@.listeners[l]
                            },
                        ),
                        ..old(self)@
                    })
                } else {
                    &&& !r
                    &&& final(self)@ == old(self)@
                }
            }),
    {
        let l = pairing.listener as usize;
        if l < self.listeners.len() {
            let Pairing { listener: _, emitter: _, frame, params: _ } = pairing;
            match self.listeners[l].apply_convolutions(frame, rendered) {
                Some(f) => {
                    let ghost q0 = self@.listeners[l as int].queue;
                    assert(q0 + seq![f@] =~= q0.push(f@));
                    let mut v: Vec<SoundFrame> = Vec::new();
                    v.push(f);
                    proof {
                        assert(v@.map_values(|f: SoundFrame| f@) =~= seq![f@]);
                    }
                    self.listeners[l].add_frames(v);
                    assert(self@.listeners =~= old(self)@.listeners.update(
                        l as int,
                        ListenerView {
                            queue: old(self)@.listeners[l as int].queue.push(f@),
                            ..old(self)@.listeners[l as int]
                        },
                    ));
                    true
                },
                None => {
                    assert(self@.listeners =~= old(self)@.listeners);
                    false
                },
            }
        } else {
            false
        }
    }

    /// Takes every frame the receivers have queued, receiver by receiver in
    /// id order: what this tick's mixing bus sums.
    pub fn mix_bus(&mut self) -> (r: Vec<SoundFrame>)
        ensures
            r@.map_values(|f: SoundFrame| f@) == all_queued(old(self)@.listeners),
            final(self)@ == (AudioSystemView {
                listeners: emptied(old(self)@.listeners),
                ..old(self)@
            }),
    {
        let ghost ls = old(self)@.listeners;
        let mut r: Vec<SoundFrame> = Vec::new();
        let n = self.listeners.len();
        let mut i: usize = 0;
        while i < n
            invariant
                n == ls.len(),
                i <= n,
                self@.emitters == old(self)@.emitters,
                self@.library == old(self)@.library,
                self@.listeners.len() == n,
                forall|j: int| 0 <= j < i ==> #[trigger] self@.listeners[j] == emptied(ls)[j],
                forall|j: int| i <= j < n ==> #[trigger] self@.listeners[j] == ls[j],
                r@.map_values(|f: SoundFrame| f@) =~= all_queued(ls.take(i as int)),
            decreases n - i,
        {
            let ghost before = r@.map_values(|f: SoundFrame| f@);
            let ghost before_ls = self@.listeners;
            let mut frames = self.listeners[i].get_frames();
            assert(self@.listeners =~= before_ls.update(
                i as int,
                ListenerView { queue: Seq::empty(), ..before_ls[i as int] },
            ));
            let ghost got = frames@.map_values(|f: SoundFrame| f@);
            r.append(&mut frames);
            proof {
                assert(r@.map_values(|f: SoundFrame| f@) =~= before + got);
                assert(ls.take(i + 1).drop_last() =~= ls.take(i as int));
            }
            i = i + 1;
        }
        assert(ls.take(n as int) =~= ls);
        assert(self@.listeners =~= emptied(ls));
        r
    }

    /// The source with id `uid`, for the caller to move or change.
    pub fn get_emitter(&mut self, uid: u32) -> (r: Option<&mut Emitter>)
        ensures
            r.is_some() == (uid < old(self)@.emitters.len()),
            match r {
                Some(e) => {
                    &&& (*e)@ == old(self)@.emitters[uid as int]
                    &&& final(self)@.emitters =~= old(self)@.emitters.update(uid as int, (*final(e))@)
                    &&& final(self)@.listeners == old(self)@.listeners
                    &&& final(self)@.library == old(self)@.library
                },
                None => final(self)@ == old(self)@,
            },
    {
        let i = uid as usize;
        if i < self.emitters.len() {
            Some(&mut self.emitters[i])
        } else {
            None
        }
    }

    /// The receiver with id `uid`, for the caller to move or change.
    pub fn get_listener(&mut self, uid: u32) -> (r: Option<&mut Listener>)
        ensures
            r.is_some() == (uid < old(self)@.listeners.len()),
            match r {
                Some(l) => {
                    &&& (*l)@ == old(self)@.listeners[uid as int]
                    &&& final(self)@.listeners =~= old(self)@.listeners.update(uid as int, (*final(l))@)
                    &&& final(self)@.emitters == old(self)@.emitters
                    &&& final(self)@.library == old(self)@.library
                },
                None => final(self)@ == old(self)@,
            },
    {
        let i = uid as usize;
        if i < self.listeners.len() {
            Some(&mut self.listeners[i])
        } else {
            None
        }
    }
}

} // verus!
