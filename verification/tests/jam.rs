use ternary_jam::{ChordProgression, ImprovRule, JamMix, JamSession, JamSync, TernaryNote, Voice};

#[test]
fn ternary_note_roundtrip() {
    for v in [-1i8, 0, 1] {
        assert_eq!(TernaryNote::from_i8(v).unwrap().to_i8(), v);
    }
    assert!(TernaryNote::from_i8(2).is_none());
}

#[test]
fn dissonance_detection() {
    assert_eq!(TernaryNote::Flat.dissonance_with(TernaryNote::Sharp), 2);
    assert_eq!(TernaryNote::Sharp.dissonance_with(TernaryNote::Flat), 2);
    assert_eq!(TernaryNote::Rest.dissonance_with(TernaryNote::Sharp), 0);
    assert_eq!(TernaryNote::Sharp.dissonance_with(TernaryNote::Sharp), 0);
}

#[test]
fn voice_playback() {
    let mut v = Voice::new(0, 1);
    v.add_note(TernaryNote::Sharp);
    v.add_note(TernaryNote::Rest);
    v.add_note(TernaryNote::Flat);
    assert_eq!(v.play_next(), TernaryNote::Sharp);
    assert_eq!(v.play_next(), TernaryNote::Rest);
    assert_eq!(v.play_next(), TernaryNote::Flat);
    assert_eq!(v.play_next(), TernaryNote::Rest); // exhausted
    assert_eq!(v.remaining(), 0);
}

#[test]
fn voice_reset() {
    let mut v = Voice::new(1, -1);
    v.add_note(TernaryNote::Flat);
    v.play_next();
    assert_eq!(v.remaining(), 0);
    v.reset();
    assert_eq!(v.remaining(), 1);
}

#[test]
fn chord_progression_cycles() {
    let mut cp = ChordProgression::new(vec![[1, 0, -1], [0, 1, 0], [-1, 0, 1]]);
    assert_eq!(cp.advance(), [1, 0, -1]);
    assert_eq!(cp.advance(), [0, 1, 0]);
    assert_eq!(cp.advance(), [-1, 0, 1]);
    assert_eq!(cp.advance(), [1, 0, -1]); // wraps
}

#[test]
fn chord_tension() {
    let cp = ChordProgression::new(vec![[1, 1, 1], [0, 0, 0]]);
    assert_eq!(cp.tension(), 3); // current = first chord
}

#[test]
fn improv_rule_free() {
    assert!(ImprovRule::Free.check(TernaryNote::Flat, TernaryNote::Sharp));
    let result = ImprovRule::Free.apply(TernaryNote::Rest, 1);
    assert_eq!(result, TernaryNote::Sharp);
}

#[test]
fn improv_rule_resolve() {
    let r = ImprovRule::Resolve.apply(TernaryNote::Sharp, 0);
    assert_eq!(r, TernaryNote::Rest);
    let r = ImprovRule::Resolve.apply(TernaryNote::Flat, 0);
    assert_eq!(r, TernaryNote::Rest);
    assert!(ImprovRule::Resolve.check(TernaryNote::Sharp, TernaryNote::Rest));
}

#[test]
fn jam_sync_beats() {
    let mut s = JamSync::new(4, 4);
    assert!(s.is_downbeat());
    assert!(!s.tick()); // tick 1
    assert!(!s.tick()); // tick 2
    assert!(!s.tick()); // tick 3
    assert!(s.tick()); // tick 4 = new beat
    assert_eq!(s.beat(), 1);
}

#[test]
fn jam_sync_measure_ticks() {
    let s = JamSync::new(3, 4);
    assert_eq!(s.measure_ticks(), 12);
}

#[test]
fn jam_session_basic() {
    let cp = ChordProgression::new(vec![[1, 0, -1]]);
    let sync = JamSync::new(4, 4);
    let mut session = JamSession::new(cp, sync);
    let mut v = Voice::new(0, 1);
    v.add_note(TernaryNote::Sharp);
    v.add_note(TernaryNote::Rest);
    session.add_voice(v, ImprovRule::Free);
    let results = session.run(8);
    assert_eq!(results.len(), 8);
    assert!(session.ticks > 0);
}

#[test]
fn jam_session_harmony_score() {
    let cp = ChordProgression::new(vec![[1, 0, -1]]);
    let sync = JamSync::new(4, 4);
    let mut session = JamSession::new(cp, sync);
    let v1 = Voice::new(0, 1);
    let v2 = Voice::new(1, 1);
    session.add_voice(v1, ImprovRule::Free);
    session.add_voice(v2, ImprovRule::Free);
    session.run(4);
    // Both voices have tendency 1, so should be consonant
    assert!(session.consonance > 0);
}

#[test]
fn jam_session_voice_count() {
    let cp = ChordProgression::new(vec![[0, 0, 0]]);
    let sync = JamSync::new(4, 4);
    let mut session = JamSession::new(cp, sync);
    assert_eq!(session.voice_count(), 0);
    session.add_voice(Voice::new(0, 1), ImprovRule::Free);
    assert_eq!(session.voice_count(), 1);
}

#[test]
fn jam_mix_weighted() {
    let m = JamMix::new(vec![2, 1]);
    let result = m.mix(&[TernaryNote::Sharp, TernaryNote::Flat]);
    assert_eq!(result, TernaryNote::Sharp); // 2*1 + 1*(-1) = 1 > 0
}

#[test]
fn jam_mix_unanimous() {
    let m = JamMix::new(vec![]);
    assert!(m.unanimous(&[TernaryNote::Sharp, TernaryNote::Sharp]));
    assert!(!m.unanimous(&[TernaryNote::Sharp, TernaryNote::Flat]));
    assert!(m.unanimous(&[TernaryNote::Rest, TernaryNote::Rest]));
}

#[test]
fn jam_mix_majority() {
    let m = JamMix::new(vec![]);
    assert_eq!(
        m.majority(&[TernaryNote::Sharp, TernaryNote::Sharp, TernaryNote::Flat]),
        TernaryNote::Sharp
    );
    assert_eq!(m.majority(&[TernaryNote::Rest, TernaryNote::Rest]), TernaryNote::Rest);
}

#[test]
fn voice_clamps_tendency() {
    let v = Voice::new(0, 5);
    assert_eq!(v.tendency, 1);
    let v2 = Voice::new(1, -3);
    assert_eq!(v2.tendency, -1);
}

#[test]
fn chord_progression_reset() {
    let mut cp = ChordProgression::new(vec![[1, 0, 0], [0, 1, 0]]);
    cp.advance();
    cp.advance();
    assert_eq!(cp.current, 0);
    cp.advance();
    assert_eq!(cp.current, 1);
    cp.reset();
    assert_eq!(cp.current, 0);
}

#[test]
fn jam_sync_reset() {
    let mut s = JamSync::new(4, 2);
    s.tick();
    s.tick(); // new beat
    assert_eq!(s.beat(), 1);
    s.reset();
    assert_eq!(s.beat(), 0);
    assert_eq!(s.tick_counter, 0);
}
