use vstd::prelude::*;

use crate::chord::{ChordModel, ChordProgression, advance_times};
use crate::improv::ImprovRule;
use crate::mix::{weighted_sum, weighted_sums_fit, all_agree, majority_note, count_note};
use crate::note::TernaryNote;
use crate::sync::JamSync;
use crate::voice::{Voice, VoiceModel};

verus! {

/// The coordinated jam session — the arena where agents perform.
#[derive(Debug, Clone)]
pub struct JamSession {
    /// Participating voices.
    pub voices: Vec<Voice>,
    /// Harmonic context.
    pub progression: ChordProgression,
    /// Timing sync.
    pub sync: JamSync,
    /// Active improv rules per voice (by index).
    pub rules: Vec<ImprovRule>,
    /// Combined output for each tick.
    pub output: Vec<i8>,
    /// Dissonance score accumulated.
    pub dissonance: i64,
    /// Consonance score accumulated.
    pub consonance: i64,
    /// Ticks elapsed.
    pub ticks: u64,
}

/// The abstract state of a session.
#[verifier::ext_equal]
pub struct SessionModel {
    pub voices: Seq<VoiceModel>,
    pub progression: ChordModel,
    pub sync: JamSync,
    pub rules: Seq<ImprovRule>,
    pub output: Seq<i8>,
    pub dissonance: int,
    pub consonance: int,
    pub ticks: int,
}

impl View for JamSession {
    type V = SessionModel;

    open spec fn view(&self) -> SessionModel {
        SessionModel {
            voices: self.voices@.map_values(|v: Voice| v@),
            progression: self.progression@,
            sync: self.sync,
            rules: self.rules@,
            output: self.output@,
            dissonance: self.dissonance as int,
            consonance: self.consonance as int,
            ticks: self.ticks as int,
        }
    }
}

/// The rule of voice `i`: its entry in `rules`, or Free past the end of `rules`.
pub open spec fn rule_for(rules: Seq<ImprovRule>, i: int) -> ImprovRule {
    if 0 <= i < rules.len() {
        rules[i]
    } else {
        ImprovRule::Free
    }
}

/// What a pair of notes adds to the dissonance score (`dissonant`) or to the
/// consonance score (`!dissonant`): a dissonant pair adds 2 to the first, any
/// other pair adds 1 to the second.
pub open spec fn pair_score(dissonant: bool, a: TernaryNote, b: TernaryNote) -> int {
    if dissonant {
        a.dissonance(b)
    } else if a.dissonance(b) == 0 {
        1
    } else {
        0
    }
}

/// The scores of the pairs `(i, k)` with `i < k < j`.
pub open spec fn row_score(notes: Seq<TernaryNote>, dissonant: bool, i: int, j: int) -> int
    decreases j - i,
{
    if j <= i + 1 {
        0
    } else {
        row_score(notes, dissonant, i, j - 1) + pair_score(dissonant, notes[i], notes[j - 1])
    }
}

/// The scores of the pairs `(r, k)` with `r < i` and `r < k < notes.len()`.
pub open spec fn pairs_score(notes: Seq<TernaryNote>, dissonant: bool, i: int) -> int
    decreases i,
{
    if i <= 0 {
        0
    } else {
        pairs_score(notes, dissonant, i - 1) + row_score(
            notes,
            dissonant,
            i - 1,
            notes.len() as int,
        )
    }
}

/// The scores of all pairs of distinct voices.
pub open spec fn total_score(notes: Seq<TernaryNote>, dissonant: bool) -> int {
    pairs_score(notes, dissonant, notes.len() as int)
}

impl SessionModel {
    /// The notes the voices sound on the next tick.
    pub open spec fn tick_notes(self) -> Seq<TernaryNote> {
        Seq::new(self.voices.len(), |i: int| self.voices[i].sounding(rule_for(self.rules, i)))
    }

    /// The mix of the next tick: the sign of the sum of the sounding notes.
    pub open spec fn tick_result(self) -> i8 {
        let notes = self.tick_notes();
        TernaryNote::of_sign(weighted_sum(notes, Seq::empty(), notes.len() as int)).value() as i8
    }

    /// The inputs on which `tick` overflows nothing and indexes in bounds.
    pub open spec fn can_tick(self) -> bool {
        let notes = self.tick_notes();
        &&& self.sync.can_tick()
        &&& self.sync.starts_beat() ==> self.progression.in_range()
        &&& weighted_sums_fit(notes, Seq::empty())
        &&& self.dissonance + total_score(notes, true) <= i64::MAX
        &&& self.consonance + total_score(notes, false) <= i64::MAX
        &&& self.ticks < u64::MAX
    }

    /// The session after one tick.
    pub open spec fn ticked(self) -> SessionModel {
        let notes = self.tick_notes();
        SessionModel {
            voices: self.voices.map_values(|v: VoiceModel| v.advanced()),
            progression: if self.sync.starts_beat() {
                self.progression.advanced()
            } else {
                self.progression
            },
            sync: self.sync.ticked(),
            rules: self.rules,
            output: self.output.push(self.tick_result()),
            dissonance: self.dissonance + total_score(notes, true),
            consonance: self.consonance + total_score(notes, false),
            ticks: self.ticks + 1,
        }
    }

    /// The session after `n` ticks.
    pub open spec fn ran(self, n: nat) -> SessionModel
        decreases n,
    {
        if n == 0 {
            self
        } else {
            self.ran((n - 1) as nat).ticked()
        }
    }

    /// The mixes of `n` ticks, in order.
    pub open spec fn run_results(self, n: nat) -> Seq<i8>
        decreases n,
    {
        if n == 0 {
            Seq::empty()
        } else {
            self.run_results((n - 1) as nat).push(self.ran((n - 1) as nat).tick_result())
        }
    }

    /// Each of `n` consecutive ticks can be taken.
    pub open spec fn can_run(self, n: nat) -> bool {
        forall|k: nat| k < n ==> #[trigger] self.ran(k).can_tick()
    }
}

/// A row never scores less over a longer range.
proof fn lemma_row_monotone(notes: Seq<TernaryNote>, dissonant: bool, i: int, j: int, k: int)
    requires
        j <= k,
    ensures
        row_score(notes, dissonant, i, j) <= row_score(notes, dissonant, i, k),
    decreases k - j,
{
    if j < k {
        lemma_row_monotone(notes, dissonant, i, j, k - 1);
    }
}

/// No row scores below zero.
proof fn lemma_row_nonneg(notes: Seq<TernaryNote>, dissonant: bool, i: int, j: int)
    ensures
        row_score(notes, dissonant, i, j) >= 0,
    decreases j - i,
{
    if j > i + 1 {
        lemma_row_nonneg(notes, dissonant, i, j - 1);
    }
}

/// Fewer rows never score more.
proof fn lemma_pairs_monotone(notes: Seq<TernaryNote>, dissonant: bool, i: int, k: int)
    requires
        i <= k,
    ensures
        pairs_score(notes, dissonant, i) <= pairs_score(notes, dissonant, k),
    decreases k - i,
{
    if i < k {
        lemma_pairs_monotone(notes, dissonant, i, k - 1);
        lemma_row_nonneg(notes, dissonant, k - 1, notes.len() as int);
    }
}

/// Each pair of voices adds 2 to the dissonance row score or 1 to the consonance
/// row score, never both.
proof fn lemma_row_counts_pairs(notes: Seq<TernaryNote>, i: int, j: int)
    requires
        i + 1 <= j,
    ensures
        2 * row_score(notes, false, i, j) + row_score(notes, true, i, j) == 2 * (j - i - 1),
    decreases j - i,
{
    if j > i + 1 {
        lemma_row_counts_pairs(notes, i, j - 1);
        crate::note::lemma_dissonance_symmetric(notes[i], notes[j - 1]);
    }
}

/// The first `i` rows hold `i * (2n - i - 1) / 2` pairs, each scored once.
proof fn lemma_pairs_counted(notes: Seq<TernaryNote>, i: int)
    requires
        0 <= i <= notes.len(),
    ensures
        2 * pairs_score(notes, false, i) + pairs_score(notes, true, i) == i * (2 * notes.len()
            - i - 1),
    decreases i,
{
    let n = notes.len() as int;
    if i > 0 {
        lemma_pairs_counted(notes, i - 1);
        lemma_row_counts_pairs(notes, i - 1, n);
        assert((i - 1) * (2 * n - (i - 1) - 1) + 2 * (n - (i - 1) - 1) == i * (2 * n - i - 1))
            by (nonlinear_arith);
    } else {
        assert(i * (2 * n - i - 1) == 0) by (nonlinear_arith)
            requires
                i == 0,
        ;
    }
}

/// With agreeing notes no pair in the first `i` rows is dissonant.
proof fn lemma_agreeing_rows_consonant(notes: Seq<TernaryNote>, i: int)
    requires
        all_agree(notes),
        0 <= i <= notes.len(),
    ensures
        pairs_score(notes, true, i) == 0,
    decreases i,
{
    if i > 0 {
        lemma_agreeing_rows_consonant(notes, i - 1);
        lemma_agreeing_row_consonant(notes, i - 1, notes.len() as int);
    }
}

/// With agreeing notes no pair `(i, k)` with `k < j` is dissonant.
proof fn lemma_agreeing_row_consonant(notes: Seq<TernaryNote>, i: int, j: int)
    requires
        all_agree(notes),
        0 <= i < notes.len(),
        j <= notes.len(),
    ensures
        row_score(notes, true, i, j) == 0,
    decreases j - i,
{
    if j > i + 1 {
        lemma_agreeing_row_consonant(notes, i, j - 1);
        assert(notes[i] != TernaryNote::Rest && notes[j - 1] != TernaryNote::Rest ==> notes[i]
            == notes[j - 1]);
    }
}

/// One tick appends its mix, a value in {-1, 0, 1}, to the output, counts one more
/// tick, keeps the voices and rules, moves the clock by one tick, and scores
/// every pair of voices once: a Sharp against a Flat adds 2 to the dissonance,
/// any other pair adds 1 to the consonance. When all sounding notes agree, the
/// tick adds no dissonance at all.
pub proof fn lemma_tick_accounting(m: SessionModel)
    ensures
        m.ticked().output == m.output.push(m.tick_result()),
        -1 <= m.tick_result() <= 1,
        m.ticked().ticks == m.ticks + 1,
        m.ticked().voices.len() == m.voices.len(),
        m.ticked().rules == m.rules,
        m.ticked().sync == m.sync.ticked(),
        2 * (m.ticked().consonance - m.consonance) + (m.ticked().dissonance - m.dissonance)
            == m.voices.len() * (m.voices.len() - 1),
        m.ticked().dissonance >= m.dissonance,
        m.ticked().consonance >= m.consonance,
        all_agree(m.tick_notes()) ==> m.ticked().dissonance == m.dissonance && 2 * (
        m.ticked().consonance - m.consonance) == m.voices.len() * (m.voices.len() - 1),
{
    let notes = m.tick_notes();
    let n = notes.len() as int;
    lemma_pairs_counted(notes, n);
    assert(n * (2 * n - n - 1) == n * (n - 1)) by (nonlinear_arith);
    lemma_pairs_monotone(notes, true, 0, n);
    lemma_pairs_monotone(notes, false, 0, n);
    if all_agree(notes) {
        lemma_agreeing_rows_consonant(notes, n);
    }
}

/// The mix of a tick is the majority vote of the notes the voices sound, which
/// is also what an unweighted `JamMix` makes of them.
pub proof fn lemma_tick_mix_is_majority(m: SessionModel)
    ensures
        m.tick_result() == majority_note(m.tick_notes()).value(),
{
    let notes = m.tick_notes();
    crate::mix::lemma_unit_weights_mix_is_majority(notes, Seq::empty(), notes.len() as int);
}

/// Running `n` ticks appends exactly the `n` returned mixes to the output, counts
/// `n` ticks, keeps the voices and rules, and moves the session clock exactly as
/// `n` ticks of the `JamSync` clock.
pub proof fn lemma_run_appends(m: SessionModel, n: nat)
    ensures
        m.run_results(n).len() == n,
        m.ran(n).output == m.output + m.run_results(n),
        m.ran(n).ticks == m.ticks + n,
        m.ran(n).voices.len() == m.voices.len(),
        m.ran(n).rules == m.rules,
        m.ran(n).sync == m.sync.ticked_n(n),
    decreases n,
{
    if n > 0 {
        lemma_run_appends(m, (n - 1) as nat);
        lemma_tick_accounting(m.ran((n - 1) as nat));
        assert(m.ran(n).output =~= m.output + m.run_results(n));
    } else {
        assert(m.output + m.run_results(0) =~= m.output);
    }
}

/// The voice `v` after `n` ticks: its position has moved `n` notes on, but not
/// past the end of its queue.
pub open spec fn voice_after(v: VoiceModel, n: nat) -> VoiceModel {
    if v.has_queued() {
        VoiceModel {
            position: if v.position + n <= v.notes.len() {
                v.position + n
            } else {
                v.notes.len()
            },
            ..v
        }
    } else {
        v
    }
}

/// Over `n` ticks every voice plays through its queue in order, one note per
/// tick, and then keeps its position while it improvises: on the `k`-th tick a
/// voice with `k` queued notes still ahead sounds the note `k` places past its
/// starting position.
pub proof fn lemma_run_plays_queues(m: SessionModel, n: nat, i: int)
    requires
        0 <= i < m.voices.len(),
    ensures
        m.ran(n).voices[i] == voice_after(m.voices[i], n),
        m.ran(n).voices.len() == m.voices.len(),
        m.voices[i].position + n < m.voices[i].notes.len() ==> m.ran(n).tick_notes()[i]
            == m.voices[i].notes[(m.voices[i].position + n) as int],
    decreases n,
{
    lemma_run_appends(m, n);
    if n > 0 {
        lemma_run_plays_queues(m, (n - 1) as nat, i);
        lemma_run_appends(m, (n - 1) as nat);
    }
}

/// How many of the first `n` ticks of the clock `s` start a new beat.
pub open spec fn beats_started(s: JamSync, n: nat) -> nat
    decreases n,
{
    if n == 0 {
        0
    } else {
        beats_started(s, (n - 1) as nat) + if s.ticked_n((n - 1) as nat).starts_beat() {
            1nat
        } else {
            0nat
        }
    }
}

/// Over `n` ticks the chord progression advances once for every beat that
/// starts, and at no other time.
pub proof fn lemma_progression_follows_beats(m: SessionModel, n: nat)
    ensures
        m.ran(n).progression == advance_times(m.progression, beats_started(m.sync, n)),
    decreases n,
{
    if n > 0 {
        lemma_progression_follows_beats(m, (n - 1) as nat);
        lemma_run_appends(m, (n - 1) as nat);
    }
}

/// Row `i` of dissonance up to `j` is 2 for every note after `i` (and before
/// `j`) that opposes note `i`.
proof fn lemma_row_dissonance(notes: Seq<TernaryNote>, i: int, j: int)
    requires
        0 <= i < j <= notes.len(),
    ensures
        row_score(notes, true, i, j) == 2 * if notes[i] == TernaryNote::Sharp {
            count_note(notes, TernaryNote::Flat, j) - count_note(notes, TernaryNote::Flat, i + 1)
        } else if notes[i] == TernaryNote::Flat {
            count_note(notes, TernaryNote::Sharp, j) - count_note(notes, TernaryNote::Sharp, i + 1)
        } else {
            0
        },
    decreases j - i,
{
    if j > i + 1 {
        lemma_row_dissonance(notes, i, j - 1);
    }
}

/// The first `i` rows of dissonance count, twice, the opposed pairs with a
/// first note before `i`.
proof fn lemma_pairs_dissonance(notes: Seq<TernaryNote>, i: int)
    requires
        0 <= i <= notes.len(),
    ensures
        pairs_score(notes, true, i) == 2 * (count_note(notes, TernaryNote::Sharp, i) * count_note(
            notes,
            TernaryNote::Flat,
            notes.len() as int,
        ) + count_note(notes, TernaryNote::Flat, i) * count_note(
            notes,
            TernaryNote::Sharp,
            notes.len() as int,
        ) - count_note(notes, TernaryNote::Sharp, i) * count_note(notes, TernaryNote::Flat, i)),
    decreases i,
{
    let n = notes.len() as int;
    if i > 0 {
        let r = i - 1;
        lemma_pairs_dissonance(notes, r);
        lemma_row_dissonance(notes, r, n);
        let sr = count_note(notes, TernaryNote::Sharp, r) as int;
        let fr = count_note(notes, TernaryNote::Flat, r) as int;
        let si = count_note(notes, TernaryNote::Sharp, i) as int;
        let fi = count_note(notes, TernaryNote::Flat, i) as int;
        let sn = count_note(notes, TernaryNote::Sharp, n) as int;
        let fnn = count_note(notes, TernaryNote::Flat, n) as int;
        if notes[r] == TernaryNote::Sharp {
            assert(si == sr + 1 && fi == fr);
            assert(sr * fnn + fr * sn - sr * fr + (fnn - fr) == si * fnn + fi * sn - si * fi)
                by (nonlinear_arith)
                requires
                    si == sr + 1,
                    fi == fr,
            ;
        } else if notes[r] == TernaryNote::Flat {
            assert(fi == fr + 1 && si == sr);
            assert(sr * fnn + fr * sn - sr * fr + (sn - sr) == si * fnn + fi * sn - si * fi)
                by (nonlinear_arith)
                requires
                    fi == fr + 1,
                    si == sr,
            ;
        } else {
            assert(si == sr && fi == fr);
        }
    } else {
        assert(count_note(notes, TernaryNote::Sharp, 0) == 0);
        assert(count_note(notes, TernaryNote::Flat, 0) == 0);
    }
}

/// A tick scores the pairs of sounding notes by what they are, not by which
/// voice comes first: with `s` voices sounding Sharp and `f` sounding Flat, it
/// adds `2 * s * f` to the dissonance (2 for each Sharp/Flat pair, in either
/// order) and 1 to the consonance for each of the other pairs of voices.
pub proof fn lemma_tick_scores_opposed_pairs(m: SessionModel)
    ensures
        ({
            let notes = m.tick_notes();
            let n = notes.len() as int;
            let s = count_note(notes, TernaryNote::Sharp, n) as int;
            let f = count_note(notes, TernaryNote::Flat, n) as int;
            &&& m.ticked().dissonance - m.dissonance == 2 * s * f
            &&& 2 * (m.ticked().consonance - m.consonance) == n * (n - 1) - 2 * s * f
        }),
{
    let notes = m.tick_notes();
    let n = notes.len() as int;
    lemma_pairs_dissonance(notes, n);
    lemma_tick_accounting(m);
    let s = count_note(notes, TernaryNote::Sharp, n) as int;
    let f = count_note(notes, TernaryNote::Flat, n) as int;
    assert(2 * (s * f + f * s - s * f) == 2 * s * f) by (nonlinear_arith);
}

impl JamSession {
    pub fn new(progression: ChordProgression, sync: JamSync) -> (s: Self)
        ensures
            s@ == (SessionModel {
                voices: Seq::empty(),
                progression: progression@,
                sync: sync,
                rules: Seq::empty(),
                output: Seq::empty(),
                dissonance: 0,
                consonance: 0,
                ticks: 0,
            }),
    {
        let s = JamSession {
            voices: Vec::new(),
            progression,
            sync,
            rules: Vec::new(),
            output: Vec::new(),
            dissonance: 0,
            consonance: 0,
            ticks: 0,
        };
        assert(s@.voices =~= Seq::empty());
        s
    }

    /// Add a voice with an optional improv rule.
    pub fn add_voice(&mut self, voice: Voice, rule: ImprovRule)
        ensures
            final(self)@ == (SessionModel {
                voices: old(self)@.voices.push(voice@),
                rules: old(self)@.rules.push(rule),
                ..old(self)@
            }),
    {
        self.voices.push(voice);
        self.rules.push(rule);
        assert(self@.voices =~= old(self)@.voices.push(voice@));
    }

    /// Advance one tick: each voice plays, output is mixed, scores updated.
    pub fn tick(&mut self) -> (r: i8)
        requires
            old(self)@.can_tick(),
        ensures
            r == old(self)@.tick_result(),
            final(self)@ == old(self)@.ticked(),
            final(self).voices.len() == old(self).voices.len(),
    {
        let ghost m = self@;
        let ghost notes_spec = m.tick_notes();
        let new_beat = self.sync.tick();
        if new_beat {
            self.progression.advance();
        }
        // Each voice plays its queued note or improvises once the queue is empty.

        let n = self.voices.len();
        let mut notes: Vec<TernaryNote> = Vec::new();
        let mut i: usize = 0;
        while i < n
            invariant
                n == self.voices.len(),
                n == m.voices.len(),
                0 <= i <= n,
                self.rules@ == m.rules,
                notes@ == notes_spec.take(i as int),
                forall|k: int|
                    0 <= k < n ==> (#[trigger] self.voices@[k])@ == if k < i {
                        m.voices[k].advanced()
                    } else {
                        m.voices[k]
                    },
                notes_spec == m.tick_notes(),
                self.dissonance == m.dissonance,
                self.consonance == m.consonance,
                self.output@ == m.output,
                self.ticks == m.ticks,
                self.sync == m.sync.ticked(),
                self.progression@ == m.ticked().progression,
            decreases n - i,
        {
            assert(self.voices@[i as int]@ == m.voices[i as int]);
            let note = if self.voices[i].remaining() == 0 {
                let rule = if i < self.rules.len() {
                    self.rules[i]
                } else {
                    ImprovRule::Free
                };
                let len_i = self.voices[i].notes.len();
                let prev = if len_i > 0 {
                    self.voices[i].notes[len_i - 1]
                } else {
                    TernaryNote::Rest
                };
                rule.apply(prev, self.voices[i].tendency)
            } else {
                self.voices[i].play_next()
            };
            notes.push(note);
            assert(notes@ =~= notes_spec.take(i + 1));
            i = i + 1;
        }
        assert(notes@ =~= notes_spec);
        assert(self@.voices =~= m.ticked().voices);

        // Mix: sum, then clamp to the ternary range.
        let mut mixed: i32 = 0;
        let mut k: usize = 0;
        while k < n
            invariant
                n == notes@.len(),
                0 <= k <= n,
                mixed == weighted_sum(notes@, Seq::empty(), k as int),
                weighted_sums_fit(notes@, Seq::empty()),
            decreases n - k,
        {
            let v = notes[k].to_i8() as i32;
            assert(weighted_sum(notes@, Seq::empty(), (k + 1) as int) == mixed + v);
            assert(i32::MIN <= weighted_sum(notes@, Seq::empty(), (k + 1) as int) <= i32::MAX);
            mixed = mixed + v;
            k = k + 1;
        }

        // Pairwise dissonance scoring.
        let mut dissonance = self.dissonance;
        let mut consonance = self.consonance;
        let mut a: usize = 0;
        while a < n
            invariant
                n == notes@.len(),
                0 <= a <= n,
                dissonance == m.dissonance + pairs_score(notes@, true, a as int),
                consonance == m.consonance + pairs_score(notes@, false, a as int),
                m.dissonance + total_score(notes@, true) <= i64::MAX,
                m.consonance + total_score(notes@, false) <= i64::MAX,
            decreases n - a,
        {
            let mut b: usize = a + 1;
            proof {
                lemma_pairs_monotone(notes@, true, a + 1, n as int);
                lemma_pairs_monotone(notes@, false, a + 1, n as int);
            }
            while b < n
                invariant
                    n == notes@.len(),
                    0 <= a < n,
                    a + 1 <= b <= n,
                    dissonance == m.dissonance + pairs_score(notes@, true, a as int) + row_score(
                        notes@,
                        true,
                        a as int,
                        b as int,
                    ),
                    consonance == m.consonance + pairs_score(notes@, false, a as int)
                        + row_score(notes@, false, a as int, b as int),
                    m.dissonance + pairs_score(notes@, true, a + 1) <= i64::MAX,
                    m.consonance + pairs_score(notes@, false, a + 1) <= i64::MAX,
                decreases n - b,
            {
                proof {
                    lemma_row_monotone(notes@, true, a as int, b + 1, n as int);
                    lemma_row_monotone(notes@, false, a as int, b + 1, n as int);
                    lemma_pairs_monotone(notes@, true, 0, a as int);
                    lemma_pairs_monotone(notes@, false, 0, a as int);
                }
                let d = notes[a].dissonance_with(notes[b]);
                if d > 0 {
                    dissonance += d as i64;
                } else {
                    consonance += 1;
                }
                b = b + 1;
            }
            a = a + 1;
        }
        self.dissonance = dissonance;
        self.consonance = consonance;

        // Clamp mix to ternary range
        let result = if mixed > 0 {
            1i8
        } else if mixed < 0 {
            -1i8
        } else {
            0i8
        };
        self.output.push(result);
        self.ticks += 1;
        assert(self@ =~= m.ticked());
        result
    }

    /// Run the session for N ticks.
    pub fn run(&mut self, ticks: u32) -> (results: Vec<i8>)
        requires
            old(self)@.can_run(ticks as nat),
        ensures
            results@ == old(self)@.run_results(ticks as nat),
            final(self)@ == old(self)@.ran(ticks as nat),
            final(self).voices.len() == old(self).voices.len(),
    {
        let ghost m = self@;
        let mut results: Vec<i8> = Vec::with_capacity(ticks as usize);
        let mut k: u32 = 0;
        while k < ticks
            invariant
                0 <= k <= ticks,
                self@ == m.ran(k as nat),
                results@ == m.run_results(k as nat),
                m.can_run(ticks as nat),
                self.voices.len() == m.voices.len(),
            decreases ticks - k,
        {
            assert(m.ran(k as nat).can_tick());
            let r = self.tick();
            results.push(r);
            k = k + 1;
        }
        results
    }

    /// Current harmony score: consonance minus dissonance.
    pub fn harmony_score(&self) -> (r: i64)
        requires
            i64::MIN <= self.consonance - self.dissonance <= i64::MAX,
        ensures
            r == self.consonance - self.dissonance,
    {
        self.consonance - self.dissonance
    }

    /// Number of voices in the session.
    pub fn voice_count(&self) -> (r: usize)
        ensures
            r == self@.voices.len(),
    {
        self.voices.len()
    }
}

} // verus!
