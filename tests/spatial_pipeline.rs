use og_engine::emitter::Emitter;
use og_engine::frame::{Sample, SoundFrame, FRAME_SIZE, SAMPLE_RATE};
use og_engine::geometry::{
    attenuation_sq, direct_params, distance_squared, offset, Offset, Ratio, Transform, Vec3,
    GAIN_ONE, TRANSMISSION_HIGH, TRANSMISSION_LOW, TRANSMISSION_MID,
};
use og_engine::library::SoundLibrary;
use og_engine::listener::Listener;
use og_engine::sound::Sound;
use og_engine::system::{AudioSystem, FRAMES_TO_BUFFER};
use og_engine::Rcode;

fn at(x: i32, y: i32, z: i32) -> Transform {
    Transform {
        pos: Vec3 { x, y, z },
        forward: Vec3 { x: 0, y: 0, z: -1000 },
    }
}

fn samples(n: usize) -> Vec<Sample> {
    (0..n).map(|i| ((i % 100) as f32 / 100.0).to_bits()).collect()
}

/// A stand-in render: left channel the input, right channel its bitwise
/// complement, laid out planar.
fn planar_render(frame: &SoundFrame) -> Vec<Sample> {
    let mono = frame.samples();
    let mut out = mono.clone();
    out.extend(mono.iter().map(|s| !s));
    out
}

#[test]
fn distances_are_exact() {
    let a = Vec3 { x: 1000, y: -2000, z: 2000 };
    let b = Vec3 { x: 0, y: 0, z: 0 };
    assert_eq!(distance_squared(a, b), 9_000_000);
    assert_eq!(offset(b, a), Offset { x: 1000, y: -2000, z: 2000 });
    let far = Vec3 { x: i32::MAX, y: i32::MAX, z: i32::MAX };
    let near = Vec3 { x: i32::MIN, y: i32::MIN, z: i32::MIN };
    assert_eq!(distance_squared(far, near), 3 * (u32::MAX as u128) * (u32::MAX as u128));
}

/// `a > b` for fractions with positive denominators.
fn louder(a: Ratio, b: Ratio) -> bool {
    a.num * b.den > b.num * a.den
}

#[test]
fn attenuation_is_inverse_distance() {
    // One unit away (1000 mm) the squared gain is one.
    assert_eq!(attenuation_sq(1_000_000), Ratio { num: 1_000_000, den: 1_000_000 });
    // Two units away it is a quarter: the gain halves.
    let two = attenuation_sq(4_000_000);
    assert_eq!(two.num * 4, two.den);
    assert_eq!(attenuation_sq(1), Ratio { num: 1_000_000, den: 1 });
}

#[test]
fn attenuation_falls_strictly_with_distance() {
    let mut last = attenuation_sq(1);
    for d_sq in [2u128, 1_000_000, 1_000_001, 1_000_002_000_001, 2_000_000_000_000, 2_000_000_000_001] {
        let g = attenuation_sq(d_sq);
        assert!(louder(last, g));
        assert!(g.num > 0);
        last = g;
    }
    // Far beyond a million units the gain is still positive.
    let far = attenuation_sq(3 * (u32::MAX as u128) * (u32::MAX as u128));
    assert!(far.num > 0 && far.den > 0);
}

#[test]
fn direct_params_derive_from_distance() {
    let p = direct_params(4_000_000);
    assert_eq!(p.attenuation_sq, Ratio { num: 1_000_000, den: 4_000_000 });
    assert_eq!(p.air_absorption_tenths.low, 30);
    assert_eq!(p.air_absorption_tenths.mid, 20);
    assert_eq!(p.air_absorption_tenths.high, 25);
    assert_eq!(p.directivity, GAIN_ONE);
    assert_eq!(p.occlusion, 0);
    assert_eq!(p.transmission.low, TRANSMISSION_LOW);
    assert_eq!(p.transmission.mid, TRANSMISSION_MID);
    assert_eq!(p.transmission.high, TRANSMISSION_HIGH);
    assert_eq!(p.distance_sq, 4_000_000);
}

#[test]
fn listener_params_for_emitter() {
    let listener = Listener::new(at(0, 0, 0));
    let emitter = Emitter::new(at(0, 3000, 4000), None);
    let p = listener.spatial_params(&emitter).unwrap();
    assert_eq!(p.direction, Offset { x: 0, y: 3000, z: 4000 });
    assert_eq!(p.forward, Vec3 { x: 0, y: 0, z: -1000 });
    assert_eq!(p.direct.attenuation_sq, Ratio { num: 1_000_000, den: 25_000_000 });
    let same_place = Emitter::new(at(0, 0, 0), None);
    assert!(listener.spatial_params(&same_place).is_none());
}

#[test]
fn convolution_interleaves_rendered_stereo() {
    let mut listener = Listener::new(at(0, 0, 0));
    let frame = SoundFrame::new(vec![1, 2, 3, 4], 1, SAMPLE_RATE, 99);
    let planar = vec![10, 11, 12, 13, 20, 21, 22, 23];
    let out = listener.apply_convolutions(frame.clone(), Some(planar.clone())).unwrap();
    assert_eq!(out.samples(), vec![10, 20, 11, 21, 12, 22, 13, 23]);
    assert_eq!(out.channels(), 2);
    assert_eq!(out.size(), 4);
    assert_eq!(out.sample_rate(), SAMPLE_RATE);
    assert_eq!(out.total_duration(), Some(99));
    let again = listener.apply_convolutions(frame, Some(planar)).unwrap();
    assert_eq!(again.samples(), out.samples());
    assert_eq!(listener.queued(), 0);
}

#[test]
fn failed_render_drops_the_frame() {
    let mut listener = Listener::new(at(0, 0, 0));
    let frame = SoundFrame::new(vec![1, 2, 3, 4], 1, SAMPLE_RATE, 0);
    assert!(listener.apply_convolutions(frame.clone(), None).is_none());
    assert!(listener.apply_convolutions(frame.clone(), Some(vec![1, 2, 3])).is_none());
    assert!(listener.apply_convolutions(frame, Some(vec![1; 9])).is_none());
    assert!(listener.apply_convolutions(SoundFrame::empty(), Some(vec![])).is_none());
}

#[test]
fn frame_interleave_and_mono_to_stereo() {
    let planar = SoundFrame::new(vec![1, 2, 3, 4, 5, 6, 7], 2, 8000, 5);
    let inter = planar.interleave();
    assert_eq!(inter.samples(), vec![1, 4, 2, 5, 3, 6]);
    let mono = SoundFrame::new(vec![1, 2, 3], 1, 8000, 5);
    let stereo = mono.mono_to_stereo();
    assert_eq!(stereo.samples(), vec![1, 1, 2, 2, 3, 3]);
    assert_eq!(stereo.channels(), 2);
    assert_eq!(stereo.size(), 3);
}

#[test]
fn frame_reads_front_to_back() {
    let mut f = SoundFrame::new(vec![5, 6], 1, 8000, 0);
    assert_eq!(f.size_hint(), (2, Some(2)));
    assert_eq!(f.next(), Some(5));
    assert_eq!(f.size_hint(), (1, Some(1)));
    assert_eq!(f.sample_at(0), 6);
    assert_eq!(f.next(), Some(6));
    assert_eq!(f.next(), None);
    assert_eq!(f.current_frame_len(), None);
    let e = SoundFrame::empty();
    assert_eq!(e.len(), 0);
    assert_eq!(e.channels(), 0);
    assert_eq!(e.sample_rate(), 0);
    assert_eq!(e.total_duration(), Some(0));
}

#[test]
fn listener_queue_hands_out_everything() {
    let mut listener = Listener::new(at(0, 0, 0));
    listener.add_frames(vec![SoundFrame::new(vec![1], 1, 1, 1), SoundFrame::new(vec![2], 1, 1, 1)]);
    listener.add_frames(vec![SoundFrame::new(vec![3], 1, 1, 1)]);
    assert_eq!(listener.queued(), 3);
    let got: Vec<Sample> = listener.get_frames().iter().map(|f| f.samples()[0]).collect();
    assert_eq!(got, vec![1, 2, 3]);
    assert_eq!(listener.queued(), 0);
    assert!(listener.get_frames().is_empty());
    assert_eq!(listener.transform(), at(0, 0, 0));
}

#[test]
fn scheduler_backs_off_while_sink_is_full() {
    let lib = SoundLibrary::create_library().with_sound("clip", Sound::new(samples(2048), 1, SAMPLE_RATE));
    let emitter = Emitter::new(at(1000, 0, 0), None).with_sound("clip", &lib);
    let mut system = AudioSystem::create_system()
        .with_library(lib)
        .with_emitter(emitter)
        .with_listener(Listener::new(at(0, 0, 0)));
    assert!(system.update(FRAMES_TO_BUFFER).is_none());
    assert!(system.update(FRAMES_TO_BUFFER + 5).is_none());
    // Nothing was consumed while the sink was full.
    let jobs = system.update(FRAMES_TO_BUFFER - 1).unwrap();
    assert_eq!(jobs.len(), 1);
    assert_eq!(jobs[0].frame.samples(), samples(2048)[..1024].to_vec());
}

#[test]
fn one_emitter_one_listener_end_to_end() {
    let clip = samples(2048);
    let lib = SoundLibrary::create_library().with_sound("clip", Sound::new(clip.clone(), 1, 44100));
    let mut system = AudioSystem::create_system();
    let emitter = Emitter::new(at(1000, 0, 0), None).with_sound("clip", &lib);
    assert_eq!(system.register_emitter(emitter), 0);
    assert_eq!(system.register_listener(Listener::new(at(0, 0, 0))), 0);
    let system = system.with_library(lib);
    assert!(system.library().get_sound("clip").is_some());
    let mut system = system;
    let mut heard = Vec::new();
    for tick in 0..2 {
        let jobs = system.update(0).unwrap();
        assert_eq!(jobs.len(), 1);
        for job in jobs {
            assert_eq!(job.listener, 0);
            assert_eq!(job.emitter, 0);
            assert_eq!(job.frame.len(), FRAME_SIZE);
            assert_eq!(job.frame.samples(), clip[tick * 1024..(tick + 1) * 1024].to_vec());
            let params = job.params.unwrap();
            let g = params.direct.attenuation_sq;
            assert_eq!(g.num, g.den);
            assert_eq!(params.direction, Offset { x: 1000, y: 0, z: 0 });
            let rendered = planar_render(&job.frame);
            assert!(system.deliver(job, Some(rendered)));
        }
        let bus = system.mix_bus();
        assert_eq!(bus.len(), 1);
        assert_eq!(bus[0].channels(), 2);
        assert_eq!(bus[0].size(), FRAME_SIZE);
        assert_eq!(bus[0].len(), 2 * FRAME_SIZE);
        assert_eq!(bus[0].samples()[0], clip[tick * 1024]);
        assert_eq!(bus[0].samples()[1], !clip[tick * 1024]);
        heard.push(bus);
    }
    assert_eq!(heard.len(), 2);
    // The clip is used up: the pass still runs, with nothing to render.
    assert!(system.update(0).unwrap().is_empty());
    assert!(system.mix_bus().is_empty());
}

#[test]
fn every_listener_hears_the_same_tick() {
    let clip = samples(4096);
    let lib = SoundLibrary::create_library().with_sound("clip", Sound::new(clip.clone(), 1, SAMPLE_RATE));
    let mut system = AudioSystem::create_system()
        .with_emitter(Emitter::new(at(1000, 0, 0), None).with_sound("clip", &lib))
        .with_emitter(Emitter::new(at(0, 0, 0), None).with_sound("clip", &lib))
        .with_listener(Listener::new(at(0, 0, 0)))
        .with_listener(Listener::new(at(0, 2000, 0)));
    let jobs = system.update(1).unwrap();
    let order: Vec<(u32, u32)> = jobs.iter().map(|j| (j.emitter, j.listener)).collect();
    assert_eq!(order, vec![(0, 0), (0, 1), (1, 0), (1, 1)]);
    // Each emitter is ticked once: both listeners get its first block.
    for job in &jobs {
        assert_eq!(job.frame.samples(), clip[..1024].to_vec());
    }
    // The second emitter sits on the first listener: no settings there.
    assert!(jobs[2].params.is_none());
    assert!(jobs[3].params.is_some());
    let mut delivered = 0;
    for job in jobs {
        let rendered = if job.params.is_some() { Some(planar_render(&job.frame)) } else { None };
        if system.deliver(job, rendered) {
            delivered += 1;
        }
    }
    assert_eq!(delivered, 3);
    assert_eq!(system.get_listener(0).unwrap().queued(), 1);
    assert_eq!(system.get_listener(1).unwrap().queued(), 2);
    assert_eq!(system.mix_bus().len(), 3);
    assert_eq!(system.get_listener(1).unwrap().queued(), 0);
    // The next pass moves on to the second block.
    let next = system.update(0).unwrap();
    assert_eq!(next.len(), 4);
    assert_eq!(next[0].frame.samples(), clip[1024..2048].to_vec());
    assert_eq!(next[1].frame.samples(), clip[1024..2048].to_vec());
}

#[test]
fn emitters_tick_without_listeners() {
    let clip = samples(2048);
    let lib = SoundLibrary::create_library().with_sound("clip", Sound::new(clip.clone(), 1, SAMPLE_RATE));
    let mut system = AudioSystem::create_system()
        .with_emitter(Emitter::new(at(1000, 0, 0), None).with_sound("clip", &lib));
    assert!(system.update(0).unwrap().is_empty());
    let l = system.register_listener(Listener::new(at(0, 0, 0)));
    let jobs = system.update(0).unwrap();
    assert_eq!(jobs.len(), 1);
    assert_eq!(jobs[0].listener, l);
    assert_eq!(jobs[0].frame.samples(), clip[1024..].to_vec());
}

#[test]
fn registry_lookups() {
    let mut system = AudioSystem::create_system();
    assert!(system.get_emitter(0).is_none());
    assert!(system.get_listener(0).is_none());
    let id = system.register_emitter(Emitter::new(at(0, 0, 0), None));
    assert_eq!(system.register_emitter(Emitter::new(at(5, 0, 0), None)), id + 1);
    system.get_emitter(1).unwrap().transform = at(7, 0, 0);
    assert_eq!(system.get_emitter(1).unwrap().transform(), at(7, 0, 0));
    assert!(system.get_emitter(2).is_none());
    let l = system.register_listener(Listener::new(at(0, 0, 0)));
    system.get_listener(l).unwrap().transform = at(0, 0, 9);
    assert_eq!(system.get_listener(l).unwrap().transform(), at(0, 0, 9));
}

#[test]
fn delivery_to_unknown_listener_is_dropped() {
    let lib = SoundLibrary::create_library().with_sound("clip", Sound::new(samples(10), 1, SAMPLE_RATE));
    let mut system = AudioSystem::create_system()
        .with_emitter(Emitter::new(at(1000, 0, 0), None).with_sound("clip", &lib))
        .with_listener(Listener::new(at(0, 0, 0)));
    let mut jobs = system.update(0).unwrap();
    let mut job = jobs.remove(0);
    job.listener = 4;
    let rendered = planar_render(&job.frame);
    assert!(!system.deliver(job, Some(rendered)));
    assert!(system.mix_bus().is_empty());
}

#[test]
fn return_codes_compare() {
    assert_eq!(Rcode::Success, Rcode::Success);
    assert_ne!(Rcode::Fail, Rcode::NoFile);
}
