use vstd::prelude::*;

use crate::note::{TernaryNote, abs, sign, clamp_unit, sign_i8, clamp_unit_i8};

verus! {

/// A species counterpoint constraint for improvisation.
#[derive(Debug, Clone, Copy, PartialEq, Eq, Structural)]
pub enum ImprovRule {
    /// Must move in the same direction as the previous note.
    Parallel,
    /// Must move in the opposite direction.
    Contrary,
    /// No constraint; free improvisation.
    Free,
    /// Must resolve toward Rest (0).
    Resolve,
}

impl ImprovRule {
    /// The note that the rule produces after `prev` for a voice with the given tendency.
    pub open spec fn next_note(self, prev: TernaryNote, tendency: int) -> TernaryNote {
        match self {
            ImprovRule::Parallel => TernaryNote::of_sign(
                clamp_unit(prev.value() + sign(tendency)),
            ),
            ImprovRule::Contrary => TernaryNote::of_sign(
                clamp_unit(prev.value() - sign(tendency)),
            ),
            ImprovRule::Free => match TernaryNote::from_value(tendency) {
                Some(n) => n,
                None => TernaryNote::Rest,
            },
            ImprovRule::Resolve => TernaryNote::of_sign(
                prev.value() - sign(prev.value()),
            ),
        }
    }

    /// Whether the step from `prev` to `next` obeys the rule: after Rest every
    /// step is allowed; after a sounding note Parallel allows only holding it,
    /// Contrary only leaving it, and Resolve only steps that do not grow louder.
    pub open spec fn allows(self, prev: TernaryNote, next: TernaryNote) -> bool {
        let p = prev.value();
        let n = next.value();
        match self {
            ImprovRule::Parallel => prev == TernaryNote::Rest || next == prev,
            ImprovRule::Contrary => prev == TernaryNote::Rest || next != prev,
            ImprovRule::Free => true,
            ImprovRule::Resolve => abs(n) <= abs(p),
        }
    }

    /// Apply the rule to generate the next note given previous state.
    pub fn apply(self, prev: TernaryNote, tendency: i8) -> (r: TernaryNote)
        ensures
            r == self.next_note(prev, tendency as int),
    {
        let p = prev.to_i8();
        match self {
            ImprovRule::Parallel => {
                let next = clamp_unit_i8(p + sign_i8(tendency));
                match TernaryNote::from_i8(next) {
                    Some(n) => n,
                    None => TernaryNote::Rest,
                }
            },
            ImprovRule::Contrary => {
                let next = clamp_unit_i8(p - sign_i8(tendency));
                match TernaryNote::from_i8(next) {
                    Some(n) => n,
                    None => TernaryNote::Rest,
                }
            },
            ImprovRule::Free => {
                match TernaryNote::from_i8(tendency) {
                    Some(n) => n,
                    None => TernaryNote::Rest,
                }
            },
            ImprovRule::Resolve => {
                // Move toward 0
                if p > 0 {
                    match TernaryNote::from_i8(p - 1) {
                        Some(n) => n,
                        None => TernaryNote::Rest,
                    }
                } else if p < 0 {
                    match TernaryNote::from_i8(p + 1) {
                        Some(n) => n,
                        None => TernaryNote::Rest,
                    }
                } else {
                    TernaryNote::Rest
                }
            },
        }
    }

    /// Check if a transition between two notes obeys this rule.
    pub fn check(self, prev: TernaryNote, next: TernaryNote) -> (r: bool)
        ensures
            r == self.allows(prev, next),
    {
        let p = prev.to_i8();
        let n = next.to_i8();
        match self {
            ImprovRule::Parallel => sign_i8(n - p) != -sign_i8(p) || p == 0 || n == p,
            ImprovRule::Contrary => sign_i8(n - p) == -sign_i8(p) || p == 0,
            ImprovRule::Free => true,
            ImprovRule::Resolve => {
                let na: i8 = if n < 0 {
                    -n
                } else {
                    n
                };
                let pa: i8 = if p < 0 {
                    -p
                } else {
                    p
                };
                na <= pa
            },
        }
    }
}

/// Resolve always lands on Rest, so it never moves away from Rest.
pub proof fn lemma_resolve_reaches_rest(prev: TernaryNote, tendency: int)
    ensures
        ImprovRule::Resolve.next_note(prev, tendency) == TernaryNote::Rest,
        ImprovRule::Resolve.allows(prev, ImprovRule::Resolve.next_note(prev, tendency)),
{
}

/// Free plays the voice's tendency whenever it is a ternary value, else Rest, and
/// Free allows every step.
pub proof fn lemma_free_follows_tendency(prev: TernaryNote, tendency: int, next: TernaryNote)
    ensures
        -1 <= tendency <= 1 ==> ImprovRule::Free.next_note(prev, tendency).value() == tendency,
        !(-1 <= tendency <= 1) ==> ImprovRule::Free.next_note(prev, tendency)
            == TernaryNote::Rest,
        ImprovRule::Free.allows(prev, next),
{
}

/// Contrary motion is parallel motion against the opposite tendency.
pub proof fn lemma_contrary_mirrors_parallel(prev: TernaryNote, tendency: int)
    ensures
        ImprovRule::Contrary.next_note(prev, tendency) == ImprovRule::Parallel.next_note(
            prev,
            -tendency,
        ),
{
}

/// The note a rule produces obeys that same rule, except where Parallel is pulled
/// against a sounding note or Contrary is not pulled back toward it.
pub proof fn lemma_apply_obeys_check(rule: ImprovRule, prev: TernaryNote, tendency: int)
    requires
        !(rule == ImprovRule::Parallel && prev.value() != 0 && sign(tendency) == -prev.value()),
        !(rule == ImprovRule::Contrary && prev.value() != 0 && sign(tendency) != prev.value()),
    ensures
        rule.allows(prev, rule.next_note(prev, tendency)),
{
}

/// The mirror image of a note: Sharp and Flat swap, Rest stays.
pub open spec fn mirrored(n: TernaryNote) -> TernaryNote {
    match n {
        TernaryNote::Flat => TernaryNote::Sharp,
        TernaryNote::Rest => TernaryNote::Rest,
        TernaryNote::Sharp => TernaryNote::Flat,
    }
}

/// Parallel and Contrary motion, note by note: with no tendency both keep the
/// previous note; Parallel steps one note in the direction of the tendency and
/// Contrary one note against it, stopping at Sharp and at Flat.
pub proof fn lemma_motion_steps(prev: TernaryNote, tendency: int)
    ensures
        tendency == 0 ==> ImprovRule::Parallel.next_note(prev, tendency) == prev
            && ImprovRule::Contrary.next_note(prev, tendency) == prev,
        tendency > 0 ==> ImprovRule::Parallel.next_note(prev, tendency) == if prev
            == TernaryNote::Flat {
            TernaryNote::Rest
        } else {
            TernaryNote::Sharp
        },
        tendency < 0 ==> ImprovRule::Parallel.next_note(prev, tendency) == if prev
            == TernaryNote::Sharp {
            TernaryNote::Rest
        } else {
            TernaryNote::Flat
        },
        tendency > 0 ==> ImprovRule::Contrary.next_note(prev, tendency) == if prev
            == TernaryNote::Sharp {
            TernaryNote::Rest
        } else {
            TernaryNote::Flat
        },
        tendency < 0 ==> ImprovRule::Contrary.next_note(prev, tendency) == if prev
            == TernaryNote::Flat {
            TernaryNote::Rest
        } else {
            TernaryNote::Sharp
        },
{
}

/// Every rule treats Sharp and Flat alike: mirroring the previous note and the
/// tendency mirrors the improvised note, and mirroring both notes of a step
/// does not change whether the rule allows it.
pub proof fn lemma_rules_mirror(
    rule: ImprovRule,
    prev: TernaryNote,
    next: TernaryNote,
    tendency: int,
)
    ensures
        rule.next_note(mirrored(prev), -tendency) == mirrored(rule.next_note(prev, tendency)),
        rule.allows(mirrored(prev), mirrored(next)) == rule.allows(prev, next),
{
}

/// Which steps the rules allow: after Rest, Parallel, Contrary and Free allow
/// every note, while Resolve allows only staying at Rest; after a sounding note,
/// Parallel allows exactly holding it and Contrary exactly leaving it; Resolve
/// always allows coming to Rest; Free allows everything.
pub proof fn lemma_allowed_steps(prev: TernaryNote, next: TernaryNote)
    ensures
        ImprovRule::Parallel.allows(TernaryNote::Rest, next),
        ImprovRule::Contrary.allows(TernaryNote::Rest, next),
        ImprovRule::Resolve.allows(TernaryNote::Rest, next) <==> next == TernaryNote::Rest,
        prev != TernaryNote::Rest ==> (ImprovRule::Parallel.allows(prev, next) <==> next == prev),
        prev != TernaryNote::Rest ==> (ImprovRule::Contrary.allows(prev, next) <==> next != prev),
        !ImprovRule::Contrary.allows(TernaryNote::Sharp, TernaryNote::Sharp),
        !ImprovRule::Contrary.allows(TernaryNote::Flat, TernaryNote::Flat),
        ImprovRule::Resolve.allows(prev, TernaryNote::Rest),
        ImprovRule::Free.allows(prev, next),
{
}

} // verus!
