//! Decoded clips kept under unique names.
use crate::frame::{Sample, SAMPLE_RATE};
use crate::sound::{decoded_sound, Sound, SoundView};
use vstd::prelude::*;

verus! {

/// Sample `i` of raw PCM bytes: four bytes, least significant first.
pub open spec fn le_sample(bytes: Seq<u8>, i: int) -> Sample {
    (bytes[4 * i] + 0x100 * bytes[4 * i + 1] + 0x1_0000 * bytes[4 * i + 2] + 0x100_0000 * bytes[4
        * i + 3]) as Sample
}

/// The samples held by raw PCM bytes; a trailing partial sample is not one.
pub open spec fn decoded_samples(bytes: Seq<u8>) -> Seq<Sample> {
    Seq::new(bytes.len() / 4, |i: int| le_sample(bytes, i))
}

/// Reads raw PCM bytes as samples, four bytes each, least significant first.
pub fn samples_from_bytes(bytes: &Vec<u8>) -> (r: Vec<Sample>)
    ensures
        r@ == decoded_samples(bytes@),
{
    let len = bytes.len();
    let n = len / 4;
    let mut r: Vec<Sample> = Vec::new();
    let mut i: usize = 0;
    while i < n
        invariant
            len == bytes@.len(),
            n == len / 4,
            i <= n,
            r@ =~= decoded_samples(bytes@).take(i as int),
        decreases n - i,
    {
        let at = 4 * i;
        let s: Sample = bytes[at] as u32 + 0x100 * bytes[at + 1] as u32 + 0x1_0000 * bytes[at
            + 2] as u32 + 0x100_0000 * bytes[at + 3] as u32;
        r.push(s);
        i = i + 1;
        assert(r@ =~= decoded_samples(bytes@).take(i as int));
    }
    r
}

/// The part of `path` after its last `\`, or all of it when it has none.
pub open spec fn file_name_of(path: Seq<char>) -> Seq<char>
    decreases path.len(),
{
    if path.len() == 0 {
        path
    } else if path.last() == '\\' {
        Seq::empty()
    } else {
        file_name_of(path.drop_last()).push(path.last())
    }
}

/// Relies on `str::rsplit`: its first item is the text after the last
/// separator, or the whole string when the separator does not occur.
#[verifier::external_body]
fn file_name(path: &str) -> (r: String)
    ensures
        r@ == file_name_of(path@),
{
    path.rsplit('\\').next().unwrap_or(path).to_string()
}

/// Names bound to sounds, later bindings of a name replacing earlier ones.
pub open spec fn entries_map(names: Seq<Seq<char>>, sounds: Seq<SoundView>) -> Map<
    Seq<char>,
    SoundView,
>
    decreases names.len(),
{
    if names.len() == 0 || sounds.len() == 0 {
        Map::empty()
    } else {
        entries_map(names.drop_last(), sounds.drop_last()).insert(names.last(), sounds.last())
    }
}

pub open spec fn unique_names(names: Seq<Seq<char>>) -> bool {
    forall|i: int, j: int| 0 <= i < j < names.len() ==> names[i] != names[j]
}

proof fn lemma_entries_hold(names: Seq<Seq<char>>, sounds: Seq<SoundView>, k: Seq<char>)
    requires
        names.len() == sounds.len(),
        unique_names(names),
    ensures
        forall|j: int|
            0 <= j < names.len() && names[j] == k ==> entries_map(names, sounds).contains_key(k)
                && entries_map(names, sounds)[k] == sounds[j],
        (forall|j: int| 0 <= j < names.len() ==> names[j] != k) ==> !entries_map(
            names,
            sounds,
        ).contains_key(k),
    decreases names.len(),
{
    if names.len() > 0 {
        let n = names.len() - 1;
        lemma_entries_hold(names.drop_last(), sounds.drop_last(), k);
        assert forall|j: int|
            0 <= j < names.len() && names[j] == k implies entries_map(names, sounds).contains_key(k)
            && entries_map(names, sounds)[k] == sounds[j] by {
            if j < n {
                assert(names[j] != names[n]);
                assert(names.drop_last()[j] == k);
            }
        }
    }
}

proof fn lemma_entries_update(
    names: Seq<Seq<char>>,
    sounds: Seq<SoundView>,
    i: int,
    v: SoundView,
)
    requires
        names.len() == sounds.len(),
        unique_names(names),
        0 <= i < names.len(),
    ensures
        entries_map(names, sounds.update(i, v)) == entries_map(names, sounds).insert(names[i], v),
    decreases names.len(),
{
    let n = names.len();
    let updated = sounds.update(i, v);
    if i == n - 1 {
        assert(updated.drop_last() =~= sounds.drop_last());
        assert(entries_map(names, updated) =~= entries_map(names, sounds).insert(names[i], v));
    } else {
        assert(updated.drop_last() =~= sounds.drop_last().update(i, v));
        lemma_entries_update(names.drop_last(), sounds.drop_last(), i, v);
        assert(names[i] != names[n - 1]);
        assert(entries_map(names, updated) =~= entries_map(names, sounds).insert(names[i], v));
    }
}

/// Sounds kept by name; every name occurs once.
pub struct SoundLibrary {
    names: Vec<String>,
    sounds: Vec<Sound>,
}

impl SoundLibrary {
    pub closed spec fn name_seq(&self) -> Seq<Seq<char>> {
        self.names@.map_values(|s: String| s@)
    }

    pub closed spec fn sound_seq(&self) -> Seq<SoundView> {
        self.sounds@.map_values(|s: Sound| s@)
    }

    #[verifier::type_invariant]
    spec fn inv(self) -> bool {
        &&& self.names.len() == self.sounds.len()
        &&& unique_names(self.name_seq())
    }
}

impl View for SoundLibrary {
    type V = Map<Seq<char>, SoundView>;

    closed spec fn view(&self) -> Map<Seq<char>, SoundView> {
        entries_map(self.name_seq(), self.sound_seq())
    }
}

impl Default for SoundLibrary {
    fn default() -> (r: SoundLibrary)
        ensures
            r@ == Map::<Seq<char>, SoundView>::empty(),
    {
        SoundLibrary::create_library()
    }
}

impl SoundLibrary {
    pub fn create_library() -> (r: SoundLibrary)
        ensures
            r@ == Map::<Seq<char>, SoundView>::empty(),
    {
        let r = SoundLibrary { names: Vec::new(), sounds: Vec::new() };
        assert(r.name_seq().len() == 0);
        r
    }

    /// Index of the entry named `name`.
    fn position(&self, name: &String) -> (r: Option<usize>)
        ensures
            match r {
                Some(i) => i < self.names.len() && self.name_seq()[i as int] == name@,
                None => forall|j: int| 0 <= j < self.names.len() ==> self.name_seq()[j] != name@,
            },
    {
        let mut i: usize = 0;
        while i < self.names.len()
            invariant
                i <= self.names.len(),
                forall|j: int| 0 <= j < i ==> self.name_seq()[j] != name@,
            decreases self.names.len() - i,
        {
            if self.names[i].eq(name) {
                return Some(i);
            }
            i = i + 1;
        }
        None
    }

    /// Binds `name` to `sound`, replacing what the name was bound to.
    pub fn with_sound(self, name: &str, sound: Sound) -> (r: SoundLibrary)
        ensures
            r@ == self@.insert(name@, sound@),
    {
        proof {
            use_type_invariant(&self);
        }
        let key = name.to_owned();
        let ghost v = sound@;
        let ghost names0 = self.name_seq();
        let ghost sounds0 = self.sound_seq();
        let found = self.position(&key);
        let SoundLibrary { mut names, mut sounds } = self;
        match found {
            Some(i) => {
                sounds.set(i, sound);
                let r = SoundLibrary { names, sounds };
                proof {
                    assert(r.sound_seq() =~= sounds0.update(i as int, v));
                    assert(r.name_seq() =~= names0);
                    lemma_entries_update(names0, sounds0, i as int, v);
                }
                r
            },
            None => {
                names.push(key);
                sounds.push(sound);
                proof {
                    let names1 = names@.map_values(|s: String| s@);
                    assert(names1 =~= names0.push(name@));
                    assert(names1.drop_last() =~= names0);
                    assert(sounds@.map_values(|s: Sound| s@) =~= sounds0.push(v));
                    assert(sounds@.map_values(|s: Sound| s@).drop_last() =~= sounds0);
                    assert(unique_names(names1));
                }
                SoundLibrary { names, sounds }
            },
        }
    }

    /// The sound bound to `name`, if any.
    pub fn get_sound(&self, name: &str) -> (r: Option<&Sound>)
        ensures
            r.is_some() == self@.contains_key(name@),
            r.is_some() ==> r.unwrap()@ == self@[name@],
    {
        proof {
            use_type_invariant(self);
            lemma_entries_hold(self.name_seq(), self.sound_seq(), name@);
        }
        let key = name.to_owned();
        match self.position(&key) {
            Some(i) => Some(&self.sounds[i]),
            None => None,
        }
    }

    /// Decodes a raw clip (mono 32-bit float PCM at `SAMPLE_RATE`) and binds
    /// it to the file name of `path`, the part after its last `\`.
    pub fn with_raw_sound_file(self, path: &str, bytes: &Vec<u8>) -> (r: SoundLibrary)
        requires
            bytes@.len() >= 4,
            bytes@.len() % 4 == 0,
        ensures
            r@ == self@.insert(
                file_name_of(path@),
                decoded_sound(decoded_samples(bytes@), 1, SAMPLE_RATE),
            ),
    {
        let samples = samples_from_bytes(bytes);
        let sound = Sound::new(samples, 1, SAMPLE_RATE);
        let name = file_name(path);
        self.with_sound(name.as_str(), sound)
    }
}

} // verus!
