use vstd::prelude::*;

use crate::note::abs;

verus! {

/// A chord progression built from ternary harmonies.
#[derive(Debug, Clone)]
pub struct ChordProgression {
    /// Each step is a set of ternary values representing simultaneous notes.
    pub steps: Vec<[i8; 3]>,
    /// Current step index.
    pub current: usize,
}

/// The abstract state of a chord progression.
pub struct ChordModel {
    pub steps: Seq<[i8; 3]>,
    pub current: nat,
}

impl View for ChordProgression {
    type V = ChordModel;

    open spec fn view(&self) -> ChordModel {
        ChordModel { steps: self.steps@, current: self.current as nat }
    }
}

/// Harmonic tension of a chord: the sum of the absolute values of its notes.
pub open spec fn chord_tension(c: [i8; 3]) -> int {
    abs(c[0] as int) + abs(c[1] as int) + abs(c[2] as int)
}

impl ChordModel {
    /// Whether `current` points at a step.
    pub open spec fn in_range(self) -> bool {
        self.current < self.steps.len()
    }

    /// The chord under `current`, if any.
    pub open spec fn current_chord(self) -> Option<[i8; 3]> {
        if self.in_range() {
            Some(self.steps[self.current as int])
        } else {
            None
        }
    }

    /// The progression after one `advance`: the next step, wrapping around.
    pub open spec fn advanced(self) -> ChordModel {
        ChordModel { current: ((self.current + 1) % self.steps.len()) as nat, ..self }
    }

    /// The tension that `tension` reports: that of the current chord, or 0 when
    /// there is none.
    pub open spec fn tension(self) -> int {
        match self.current_chord() {
            Some(c) => chord_tension(c),
            None => 0,
        }
    }
}

impl ChordProgression {
    pub fn new(steps: Vec<[i8; 3]>) -> (cp: Self)
        ensures
            cp@.steps == steps@,
            cp@.current == 0,
    {
        ChordProgression { steps, current: 0 }
    }

    /// Advance to the next chord step, wrapping around.
    pub fn advance(&mut self) -> (chord: [i8; 3])
        requires
            old(self)@.in_range(),
        ensures
            chord == old(self)@.steps[old(self)@.current as int],
            final(self)@ == old(self)@.advanced(),
            final(self)@.in_range(),
    {
        let len = self.steps.len();
        let chord = self.steps[self.current];
        self.current = (self.current + 1) % len;
        chord
    }

    /// Current chord without advancing.
    pub fn current_chord(&self) -> (r: Option<[i8; 3]>)
        ensures
            r == self@.current_chord(),
    {
        if self.current < self.steps.len() {
            Some(self.steps[self.current])
        } else {
            None
        }
    }

    /// Total number of steps.
    pub fn len(&self) -> (r: usize)
        ensures
            r == self@.steps.len(),
    {
        self.steps.len()
    }

    pub fn is_empty(&self) -> (r: bool)
        ensures
            r == (self@.steps.len() == 0),
    {
        self.steps.len() == 0
    }

    /// Harmonic tension of current chord: sum of absolute values.
    pub fn tension(&self) -> (r: i8)
        requires
            self@.tension() <= i8::MAX,
        ensures
            r == self@.tension(),
    {
        match self.current_chord() {
            Some(c) => {
                let a: i8 = if c[0] < 0 {
                    -c[0]
                } else {
                    c[0]
                };
                let b: i8 = if c[1] < 0 {
                    -c[1]
                } else {
                    c[1]
                };
                let d: i8 = if c[2] < 0 {
                    -c[2]
                } else {
                    c[2]
                };
                a + b + d
            },
            None => 0,
        }
    }

    /// Reset to beginning.
    pub fn reset(&mut self)
        ensures
            final(self)@ == (ChordModel { current: 0, ..old(self)@ }),
    {
        self.current = 0;
    }
}

/// `k` advances move `current` forward by `k` steps, wrapping around, and leave
/// the steps alone.
proof fn lemma_advance_times(m: ChordModel, k: nat)
    requires
        m.in_range(),
    ensures
        advance_times(m, k).steps == m.steps,
        advance_times(m, k).current == ((m.current + k) as int) % (m.steps.len() as int),
    decreases k,
{
    let n = m.steps.len() as int;
    if k > 0 {
        lemma_advance_times(m, (k - 1) as nat);
        assert(((m.current + (k - 1)) % n + 1) % n == ((m.current + k) as int) % n) by {
            vstd::arithmetic::div_mod::lemma_add_mod_noop_right(1, m.current + (k - 1), n);
        }
    } else {
        vstd::arithmetic::div_mod::lemma_small_mod(m.current, n as nat);
    }
}

/// Advancing a progression cycles through its steps: after `k` advances the
/// current step is `k` further on, modulo the number of steps, and after
/// `steps.len()` advances the progression is back where it started.
pub proof fn lemma_advance_cycles(m: ChordModel, k: nat)
    requires
        m.in_range(),
    ensures
        advance_times(m, k).steps == m.steps,
        advance_times(m, k).current == ((m.current + k) as int) % (m.steps.len() as int),
        advance_times(m, m.steps.len()) == m,
{
    let n = m.steps.len() as int;
    lemma_advance_times(m, k);
    lemma_advance_times(m, m.steps.len());
    assert((m.current + n) % n == m.current) by {
        vstd::arithmetic::div_mod::lemma_mod_add_multiples_vanish(m.current as int, n);
        vstd::arithmetic::div_mod::lemma_small_mod(m.current, n as nat);
    }
}

/// The progression after `k` advances.
pub open spec fn advance_times(m: ChordModel, k: nat) -> ChordModel
    decreases k,
{
    if k == 0 {
        m
    } else {
        advance_times(m, (k - 1) as nat).advanced()
    }
}

/// The tension of a chord depends only on the magnitudes of its notes: chords
/// whose notes differ at most in sign have the same tension. It is never
/// negative, is at least the magnitude of each note, and is 0 exactly for the
/// silent chord; for a chord of ternary notes it counts the sounding notes.
pub proof fn lemma_tension_of_magnitudes(c: [i8; 3], d: [i8; 3])
    requires
        forall|k: int| 0 <= k < 3 ==> d[k] == c[k] || d[k] == -c[k],
    ensures
        chord_tension(c) == chord_tension(d),
        chord_tension(c) >= 0,
        forall|k: int| 0 <= k < 3 ==> c[k] <= chord_tension(c) && -c[k] <= chord_tension(c),
        chord_tension(c) == 0 <==> (c[0] == 0 && c[1] == 0 && c[2] == 0),
        (forall|k: int| 0 <= k < 3 ==> -1 <= #[trigger] c[k] <= 1) ==> chord_tension(c) == (if c[0]
            != 0 {
            1int
        } else {
            0int
        }) + (if c[1] != 0 {
            1int
        } else {
            0int
        }) + (if c[2] != 0 {
            1int
        } else {
            0int
        }),
{
    assert(d[0] == c[0] || d[0] == -c[0]);
    assert(d[1] == c[1] || d[1] == -c[1]);
    assert(d[2] == c[2] || d[2] == -c[2]);
    if forall|k: int| 0 <= k < 3 ==> -1 <= #[trigger] c[k] <= 1 {
        assert(-1 <= c[0] <= 1);
        assert(-1 <= c[1] <= 1);
        assert(-1 <= c[2] <= 1);
    }
}

} // verus!
