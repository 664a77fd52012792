use ternary_jam::{ChordProgression, ImprovRule, JamMix, JamSession, JamSync, TernaryNote, Voice};

const NOTES: [TernaryNote; 3] = [TernaryNote::Flat, TernaryNote::Rest, TernaryNote::Sharp];
const RULES: [ImprovRule; 4] =
    [ImprovRule::Parallel, ImprovRule::Contrary, ImprovRule::Free, ImprovRule::Resolve];

#[test]
fn note_values_and_out_of_range() {
    assert_eq!(TernaryNote::Flat.to_i8(), -1);
    assert_eq!(TernaryNote::Rest.to_i8(), 0);
    assert_eq!(TernaryNote::Sharp.to_i8(), 1);
    for v in [i8::MIN, -2, 2, 5, i8::MAX] {
        assert!(TernaryNote::from_i8(v).is_none());
    }
    for n in NOTES {
        assert_eq!(TernaryNote::from_i8(n.to_i8()), Some(n));
    }
}

#[test]
fn dissonance_is_symmetric_and_self_consonant() {
    for a in NOTES {
        assert_eq!(a.dissonance_with(a), 0);
        for b in NOTES {
            assert_eq!(a.dissonance_with(b), b.dissonance_with(a));
        }
    }
    assert_eq!(TernaryNote::Flat.dissonance_with(TernaryNote::Rest), 0);
}

#[test]
fn parallel_and_contrary_motion() {
    assert_eq!(ImprovRule::Parallel.apply(TernaryNote::Rest, 1), TernaryNote::Sharp);
    assert_eq!(ImprovRule::Parallel.apply(TernaryNote::Sharp, 1), TernaryNote::Sharp);
    assert_eq!(ImprovRule::Parallel.apply(TernaryNote::Sharp, -7), TernaryNote::Rest);
    assert_eq!(ImprovRule::Parallel.apply(TernaryNote::Flat, 0), TernaryNote::Flat);
    assert_eq!(ImprovRule::Contrary.apply(TernaryNote::Rest, 1), TernaryNote::Flat);
    assert_eq!(ImprovRule::Contrary.apply(TernaryNote::Flat, -100), TernaryNote::Rest);
    assert_eq!(ImprovRule::Contrary.apply(TernaryNote::Flat, 1), TernaryNote::Flat);
    // Contrary mirrors Parallel against the opposite tendency.
    for p in NOTES {
        for t in [-3i8, -1, 0, 1, 3] {
            assert_eq!(ImprovRule::Contrary.apply(p, t), ImprovRule::Parallel.apply(p, -t));
        }
    }
}

#[test]
fn free_and_resolve() {
    assert_eq!(ImprovRule::Free.apply(TernaryNote::Sharp, -1), TernaryNote::Flat);
    assert_eq!(ImprovRule::Free.apply(TernaryNote::Sharp, 0), TernaryNote::Rest);
    assert_eq!(ImprovRule::Free.apply(TernaryNote::Sharp, 9), TernaryNote::Rest);
    for p in NOTES {
        assert_eq!(ImprovRule::Resolve.apply(p, 1), TernaryNote::Rest);
    }
}

#[test]
fn check_rules() {
    assert!(ImprovRule::Parallel.check(TernaryNote::Sharp, TernaryNote::Sharp));
    assert!(!ImprovRule::Parallel.check(TernaryNote::Sharp, TernaryNote::Rest));
    assert!(ImprovRule::Parallel.check(TernaryNote::Rest, TernaryNote::Flat));
    assert!(ImprovRule::Contrary.check(TernaryNote::Sharp, TernaryNote::Flat));
    assert!(!ImprovRule::Contrary.check(TernaryNote::Sharp, TernaryNote::Sharp));
    assert!(!ImprovRule::Resolve.check(TernaryNote::Rest, TernaryNote::Flat));
    assert!(ImprovRule::Resolve.check(TernaryNote::Flat, TernaryNote::Sharp));
}

#[test]
fn applied_rules_obey_their_check_outside_the_exceptions() {
    for rule in RULES {
        for p in NOTES {
            for t in [-2i8, -1, 0, 1, 2] {
                let s = t.signum();
                let pv = p.to_i8();
                let excluded = (rule == ImprovRule::Parallel && pv != 0 && s == -pv)
                    || (rule == ImprovRule::Contrary && pv != 0 && s != pv);
                if !excluded {
                    assert!(rule.check(p, rule.apply(p, t)));
                }
            }
        }
    }
    // An excluded input: Parallel pulled against a sounding Sharp.
    let n = ImprovRule::Parallel.apply(TernaryNote::Sharp, -1);
    assert!(!ImprovRule::Parallel.check(TernaryNote::Sharp, n));
}

#[test]
fn voice_remaining_and_positions() {
    let mut v = Voice::new(3, 0);
    assert_eq!(v.id, 3);
    assert_eq!(v.tendency, 0);
    assert_eq!(v.remaining(), 0);
    assert_eq!(v.play_next(), TernaryNote::Rest);
    assert_eq!(v.position, 0);
    v.add_note(TernaryNote::Flat);
    v.add_note(TernaryNote::Sharp);
    assert_eq!(v.remaining(), 2);
    v.position = 10;
    assert_eq!(v.remaining(), 0);
    assert_eq!(v.play_next(), TernaryNote::Rest);
    assert_eq!(v.position, 10);
    v.reset();
    assert_eq!(v.play_next(), TernaryNote::Flat);
    assert_eq!(v.position, 1);
}

#[test]
fn chord_queries() {
    let mut cp = ChordProgression::new(vec![[-1, -1, 1], [0, 1, 0]]);
    assert_eq!(cp.len(), 2);
    assert!(!cp.is_empty());
    assert_eq!(cp.current_chord(), Some([-1, -1, 1]));
    assert_eq!(cp.tension(), 3);
    cp.advance();
    assert_eq!(cp.tension(), 1);
    cp.current = 7;
    assert_eq!(cp.current_chord(), None);
    assert_eq!(cp.tension(), 0);
    let empty = ChordProgression::new(vec![]);
    assert!(empty.is_empty());
    assert_eq!(empty.len(), 0);
    assert_eq!(empty.tension(), 0);
}

#[test]
fn chord_cycle_returns_to_start() {
    let mut cp = ChordProgression::new(vec![[1, 0, 0], [0, 1, 0], [0, 0, 1]]);
    cp.advance();
    for _ in 0..3 {
        cp.advance();
    }
    assert_eq!(cp.current, 1);
}

#[test]
fn sync_keeps_time_over_measures() {
    let mut s = JamSync::new(3, 2);
    let m = s.measure_ticks() as u64;
    for n in 1..=20u64 {
        let started = s.tick();
        let pos = (s.current_beat * s.ticks_per_beat + s.tick_counter) as u64;
        assert_eq!(pos, n % m);
        assert_eq!(started, n % 2 == 0);
        assert_eq!(s.is_downbeat(), n % m == 0);
    }
}

#[test]
fn sync_with_zero_ticks_per_beat_starts_a_beat_every_tick() {
    let mut s = JamSync::new(2, 0);
    assert!(s.tick());
    assert_eq!(s.beat(), 1);
    assert!(s.tick());
    assert_eq!(s.beat(), 0);
    assert_eq!(s.tick_counter, 0);
    assert_eq!(s.measure_ticks(), 0);
}

#[test]
fn session_scores_every_pair_once() {
    let cp = ChordProgression::new(vec![[0, 0, 0]]);
    let mut session = JamSession::new(cp, JamSync::new(4, 4));
    session.add_voice(Voice::new(0, 1), ImprovRule::Free);
    session.add_voice(Voice::new(1, -1), ImprovRule::Free);
    session.add_voice(Voice::new(2, 0), ImprovRule::Free);
    let r = session.tick();
    // Sharp + Flat + Rest sums to 0.
    assert_eq!(r, 0);
    // One Sharp/Flat pair (+2 dissonance), two consonant pairs.
    assert_eq!(session.dissonance, 2);
    assert_eq!(session.consonance, 2);
    assert_eq!(session.harmony_score(), 0);
    assert_eq!(session.ticks, 1);
    assert_eq!(session.output, vec![0]);
}

#[test]
fn session_output_is_the_run() {
    let cp = ChordProgression::new(vec![[1, 0, -1], [0, 1, 0]]);
    let mut session = JamSession::new(cp, JamSync::new(2, 1));
    let mut v = Voice::new(0, -1);
    v.add_note(TernaryNote::Sharp);
    v.add_note(TernaryNote::Sharp);
    session.add_voice(v, ImprovRule::Parallel);
    let mut w = Voice::new(1, 1);
    w.add_note(TernaryNote::Flat);
    session.add_voice(w, ImprovRule::Resolve);
    let first = session.run(3);
    // tick 1: Sharp + Flat; tick 2: Sharp + Resolve(Flat)=Rest; tick 3: Parallel(Sharp,-1)=Rest + Rest
    assert_eq!(first, vec![0, 1, 0]);
    let second = session.run(2);
    let mut all = first.clone();
    all.extend(second.iter().copied());
    assert_eq!(session.output, all);
    assert_eq!(session.ticks, 5);
    assert_eq!(session.voice_count(), 2);
    assert_eq!(session.voices[0].position, 2);
    assert_eq!(session.voices[1].position, 1);
    // One chord change per tick with one tick per beat, two steps: back at 1.
    assert_eq!(session.progression.current, 1);
    assert_eq!(session.dissonance, 2);
    assert_eq!(session.consonance, 4);
    assert_eq!(session.harmony_score(), 2);
}

#[test]
fn session_rule_defaults_to_free() {
    let cp = ChordProgression::new(vec![[0, 0, 0]]);
    let mut session = JamSession::new(cp, JamSync::new(1, 1));
    session.add_voice(Voice::new(0, -1), ImprovRule::Resolve);
    session.rules.clear();
    // Without a rule the voice improvises freely on its tendency.
    assert_eq!(session.tick(), -1);
}

#[test]
fn mix_weights_and_defaults() {
    let m = JamMix::new(vec![-1, 0]);
    assert_eq!(m.weights, vec![-1, 0]);
    assert_eq!(m.mix(&[TernaryNote::Sharp]), TernaryNote::Flat);
    assert_eq!(m.mix(&[TernaryNote::Rest, TernaryNote::Sharp]), TernaryNote::Rest);
    // Past the weights, each voice weighs 1.
    assert_eq!(
        m.mix(&[TernaryNote::Rest, TernaryNote::Rest, TernaryNote::Flat]),
        TernaryNote::Flat
    );
    assert_eq!(m.mix(&[]), TernaryNote::Rest);
}

#[test]
fn unweighted_mix_equals_majority() {
    let m = JamMix::new(vec![]);
    let cases: [&[TernaryNote]; 4] = [
        &[TernaryNote::Sharp, TernaryNote::Flat, TernaryNote::Flat],
        &[TernaryNote::Sharp, TernaryNote::Rest],
        &[TernaryNote::Flat, TernaryNote::Sharp],
        &[],
    ];
    for c in cases {
        assert_eq!(m.mix(c), m.majority(c));
    }
    assert_eq!(m.majority(&[TernaryNote::Sharp, TernaryNote::Flat]), TernaryNote::Rest);
    assert_eq!(m.majority(&[TernaryNote::Flat, TernaryNote::Rest]), TernaryNote::Flat);
}

#[test]
fn unanimity_decides_majority() {
    let m = JamMix::new(vec![]);
    let agreeing = [TernaryNote::Rest, TernaryNote::Flat, TernaryNote::Rest, TernaryNote::Flat];
    assert!(m.unanimous(&agreeing));
    assert_eq!(m.majority(&agreeing), TernaryNote::Flat);
    assert!(m.unanimous(&[]));
    assert!(!m.unanimous(&[TernaryNote::Flat, TernaryNote::Rest, TernaryNote::Sharp]));
}

#[test]
fn readme_quick_start() {
    let progression = ChordProgression::new(vec![[1, 0, -1], [0, 1, 0]]);
    let sync = JamSync::new(4, 4);
    let mut session = JamSession::new(progression, sync);
    let mut voice = Voice::new(0, 1);
    voice.add_note(TernaryNote::Sharp);
    voice.add_note(TernaryNote::Rest);
    voice.add_note(TernaryNote::Flat);
    session.add_voice(voice, ImprovRule::Free);
    let output = session.run(16);
    let mut expected = vec![1i8, 0, -1];
    expected.extend(std::iter::repeat(1i8).take(13));
    assert_eq!(output, expected);
    // A single voice forms no pairs.
    assert_eq!(session.harmony_score(), 0);
    // Sixteen ticks of four per beat start four beats over a two-chord progression.
    assert_eq!(session.progression.current, 0);
    assert_eq!(session.sync.beat(), 0);
    assert!(session.sync.is_downbeat());
}

#[test]
fn fresh_clock_counter_and_beat() {
    for (b, t) in [(4u32, 4u32), (3, 2), (1, 1), (2, 5)] {
        let mut s = JamSync::new(b, t);
        for k in 1..=40u32 {
            let started = s.tick();
            assert_eq!(started, k % t == 0);
            assert_eq!(s.tick_counter, k % t);
            assert_eq!(s.beat(), (k / t) % b);
            assert_eq!(s.is_downbeat(), k % s.measure_ticks() == 0);
        }
    }
}

#[test]
fn lone_voice_plays_queue_then_rests() {
    let queue = [TernaryNote::Flat, TernaryNote::Sharp, TernaryNote::Rest, TernaryNote::Sharp];
    let mut v = Voice::new(7, -1);
    for n in queue {
        v.add_note(n);
    }
    for n in queue {
        assert_eq!(v.play_next(), n);
    }
    for _ in 0..3 {
        assert_eq!(v.play_next(), TernaryNote::Rest);
        assert_eq!(v.position, queue.len());
    }
    assert_eq!(v.remaining(), 0);
    v.reset();
    v.play_next();
    assert_eq!(v.position, 1);
    assert_eq!(v.remaining(), 3);
}
