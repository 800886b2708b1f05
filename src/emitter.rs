//! Positioned sources that play sounds taken from a library.
use crate::frame::{FrameView, SoundFrame};
use crate::geometry::Transform;
use crate::library::SoundLibrary;
use crate::sound::{after_frame, has_frame, head_frame, Sound, SoundView};
use vstd::prelude::*;

verus! {

/// What a source does with a sound whose blocks have all been played.
/// With no mode given the sound stays assigned and silent.
#[derive(Debug, Clone, Copy, PartialEq, Eq, Structural)]
pub enum SoundPlayback {
    /// The sound is dropped.
    Once,
    /// The sound starts over from its first block on the next tick.
    Loop,
    /// Playing backwards, then forwards again: not supported, and refused
    /// by `Emitter::new`.
    PingPong,
    /// Playing only a stretch of the sound, in nanoseconds from its start:
    /// not supported, and refused by `Emitter::new`.
    Partial { start_ns: u64, end_ns: u64 },
}

/// The modes a source can be made with.
pub open spec fn supported_playback(playback: Option<SoundPlayback>) -> bool {
    playback is None || playback == Some(SoundPlayback::Once) || playback == Some(
        SoundPlayback::Loop,
    )
}

/// The sound with its cursor back before the first block.
pub open spec fn rewound(s: SoundView) -> SoundView {
    SoundView { block: 0, offset: 0, ..s }
}

/// What is left of a sound that has just moved past a block: itself while
/// it has blocks left; once played out, nothing under `Once`, the sound
/// rewound under `Loop`, and the silent sound otherwise.
pub open spec fn settled(s: SoundView, playback: Option<SoundPlayback>) -> Option<SoundView> {
    if has_frame(s) {
        Some(s)
    } else if playback == Some(SoundPlayback::Once) {
        None
    } else if playback == Some(SoundPlayback::Loop) {
        Some(rewound(s))
    } else {
        Some(s)
    }
}

/// The frames one tick takes from `sounds`: the next block of each sound
/// that has one, in order.
pub open spec fn tick_frames(sounds: Seq<SoundView>) -> Seq<FrameView>
    decreases sounds.len(),
{
    if sounds.len() == 0 {
        Seq::empty()
    } else {
        let rest = tick_frames(sounds.drop_last());
        if has_frame(sounds.last()) {
            rest.push(head_frame(sounds.last()))
        } else {
            rest
        }
    }
}

/// The sounds after one tick: each has moved past the block it gave and
/// is then `settled` under the source's mode.
pub open spec fn sounds_after_tick(sounds: Seq<SoundView>, playback: Option<SoundPlayback>) -> Seq<
    SoundView,
>
    decreases sounds.len(),
{
    if sounds.len() == 0 {
        Seq::empty()
    } else {
        let rest = sounds_after_tick(sounds.drop_last(), playback);
        match settled(after_frame(sounds.last()), playback) {
            Some(s) => rest.push(s),
            None => rest,
        }
    }
}

/// Two sources given copies of one sound play them independently. On its
/// tick each takes the block under its own cursor: both take the same
/// block, or both take nothing once the sound is played out; after the
/// first has ticked, the second still takes that block, while the first
/// goes on with the next one, if any.
pub proof fn lemma_copies_play_independently(
    first: EmitterView,
    second: EmitterView,
    sound: SoundView,
)
    requires
        first.sounds == seq![sound],
        second.sounds == seq![sound],
    ensures
        emitter_tick_frames(first) == emitter_tick_frames(second),
        has_frame(sound) ==> emitter_tick_frames(second) == Some(seq![head_frame(sound)]),
        !has_frame(sound) ==> emitter_tick_frames(second).is_none(),
        has_frame(sound) ==> after_frame(sound).block == sound.block + 1,
        has_frame(after_frame(sound)) ==> emitter_tick_frames(emitter_after_tick(first)) == Some(
            seq![head_frame(after_frame(sound))],
        ),
{
    let s = seq![sound];
    let none = Seq::<SoundView>::empty();
    assert(s.drop_last() =~= none);
    assert(s.last() == sound);
    assert(tick_frames(none) == Seq::<FrameView>::empty());
    if has_frame(sound) {
        assert(tick_frames(s) =~= seq![head_frame(sound)]);
    } else {
        assert(tick_frames(s).len() == 0);
    }
    let moved = after_frame(sound);
    if has_frame(moved) {
        assert(sounds_after_tick(none, first.playback) == none);
        let after = sounds_after_tick(s, first.playback);
        assert(after =~= seq![moved]);
        assert(after.drop_last() =~= none);
        assert(after.last() == moved);
        assert(tick_frames(after) =~= seq![head_frame(moved)]);
    }
}

/// What a source holds, as seen by contracts.
pub struct EmitterView {
    pub transform: Transform,
    pub sounds: Seq<SoundView>,
    pub playback: Option<SoundPlayback>,
}

/// The source after one tick.
pub open spec fn emitter_after_tick(e: EmitterView) -> EmitterView {
    EmitterView { sounds: sounds_after_tick(e.sounds, e.playback), ..e }
}

/// The frames one tick takes from the source, `None` when there are none.
pub open spec fn emitter_tick_frames(e: EmitterView) -> Option<Seq<FrameView>> {
    if tick_frames(e.sounds).len() == 0 {
        None
    } else {
        Some(tick_frames(e.sounds))
    }
}

/// A positioned source playing any number of sounds at once.
#[derive(Debug)]
pub struct Emitter {
    pub transform: Transform,
    sounds: Vec<Sound>,
    sound_playback: Option<SoundPlayback>,
}

impl View for Emitter {
    type V = EmitterView;

    closed spec fn view(&self) -> EmitterView {
        EmitterView {
            transform: self.transform,
            sounds: self.sounds@.map_values(|s: Sound| s@),
            playback: self.sound_playback,
        }
    }
}

impl Emitter {
    /// A source with no sounds. `PingPong` and `Partial` are not supported.
    pub fn new(transform: Transform, sound_playback: Option<SoundPlayback>) -> (r: Emitter)
        requires
            supported_playback(sound_playback),
        ensures
            r@ == (EmitterView { transform, sounds: Seq::empty(), playback: sound_playback }),
    {
        let r = Emitter { transform, sounds: Vec::new(), sound_playback };
        assert(r@.sounds =~= Seq::<SoundView>::empty());
        r
    }

    /// Starts a fresh copy of the library's sound `sound_name`; a name the
    /// library does not hold is ignored.
    pub fn with_sound(self, sound_name: &str, library: &SoundLibrary) -> (r: Emitter)
        ensures
            library@.contains_key(sound_name@) ==> r@ == (EmitterView {
                sounds: self@.sounds.push(library@[sound_name@]),
                ..self@
            }),
            !library@.contains_key(sound_name@) ==> r@ == self@,
    {
        let mut e = self;
        match library.get_sound(sound_name) {
            Some(sound) => {
                e.sounds.push(sound.clone());
                assert(e@.sounds =~= self@.sounds.push(library@[sound_name@]));
            },
            None => {},
        }
        e
    }

    /// Where the source is and which way it faces.
    pub fn transform(&self) -> (r: Transform)
        ensures
            r == self@.transform,
    {
        self.transform
    }

    /// Number of sounds assigned.
    pub fn sound_count(&self) -> (r: usize)
        ensures
            r == self@.sounds.len(),
    {
        self.sounds.len()
    }

    /// Takes the next block of every sound that has one; `None` when no
    /// sound has any left.
    pub fn get_frames(&mut self) -> (r: Option<Vec<SoundFrame>>)
        ensures
            final(self)@ == emitter_after_tick(old(self)@),
            match r {
                Some(v) => emitter_tick_frames(old(self)@) == Some(v@.map_values(|f: SoundFrame| f@)),
                None => emitter_tick_frames(old(self)@).is_none(),
            },
    {
        let ghost old_sounds = self@.sounds;
        let ghost playback = self.sound_playback;
        let (once, looping) = match self.sound_playback {
            Some(SoundPlayback::Once) => (true, false),
            Some(SoundPlayback::Loop) => (false, true),
            _ => (false, false),
        };
        let mut pending: Vec<Sound> = Vec::new();
        std::mem::swap(&mut self.sounds, &mut pending);
        let n = pending.len();
        let mut kept: Vec<Sound> = Vec::new();
        let mut frames: Vec<SoundFrame> = Vec::new();
        let mut i: usize = 0;
        assert(pending@.map_values(|s: Sound| s@) =~= old_sounds);
        while i < n
            invariant
                n == old_sounds.len(),
                i <= n,
                pending@.len() == n - i,
                pending@.map_values(|s: Sound| s@) =~= old_sounds.skip(i as int),
                kept@.map_values(|s: Sound| s@) =~= sounds_after_tick(
                    old_sounds.take(i as int),
                    playback,
                ),
                once == (playback == Some(SoundPlayback::Once)),
                looping == (playback == Some(SoundPlayback::Loop)),
                frames@.map_values(|f: SoundFrame| f@) =~= tick_frames(old_sounds.take(i as int)),
            decreases n - i,
        {
            let ghost s0 = old_sounds[i as int];
            let ghost kept0 = kept@.map_values(|s: Sound| s@);
            let ghost frames0 = frames@.map_values(|f: SoundFrame| f@);
            let ghost pending0 = pending@;
            assert(pending@.map_values(|s: Sound| s@)[0] == s0);
            let mut s = pending.remove(0);
            assert(s@ == s0);
            match s.next_frame() {
                Some(f) => {
                    frames.push(f);
                    assert(frames@.map_values(|f: SoundFrame| f@) =~= frames0.push(head_frame(s0)));
                },
                None => {
                    assert(frames@.map_values(|f: SoundFrame| f@) =~= frames0);
                },
            }
            let finished = !s.has_next_frame();
            if finished && once {
                assert(kept@.map_values(|s: Sound| s@) =~= kept0);
            } else {
                if finished && looping {
                    s.rewind();
                }
                let ghost v = s@;
                kept.push(s);
                assert(kept@.map_values(|s: Sound| s@) =~= kept0.push(v));
            }
            proof {
                let pre = old_sounds.take(i as int);
                let cur = old_sounds.take(i + 1);
                assert(cur.drop_last() =~= pre);
                assert(cur.last() == s0);
                assert(pending@ =~= pending0.drop_first());
                assert(pending@.map_values(|s: Sound| s@) =~= pending0.map_values(
                    |s: Sound| s@,
                ).drop_first());
                assert(old_sounds.skip(i as int).drop_first() =~= old_sounds.skip(i + 1));
            }
            i = i + 1;
        }
        assert(old_sounds.take(n as int) =~= old_sounds);
        self.sounds = kept;
        if frames.len() == 0 {
            None
        } else {
            Some(frames)
        }
    }
}

} // verus!
