use vstd::prelude::*;

verus! {

/// A ternary musical value: Flat (-1), Rest (0), Sharp (+1).
#[derive(Debug, Clone, Copy, PartialEq, Eq, Structural, Hash)]
pub enum TernaryNote {
    Flat,
    Rest,
    Sharp,
}

/// The sign of an integer: -1, 0 or +1.
pub open spec fn sign(x: int) -> int {
    if x > 0 {
        1
    } else if x < 0 {
        -1
    } else {
        0
    }
}

/// The absolute value of an integer.
pub open spec fn abs(x: int) -> int {
    if x < 0 {
        -x
    } else {
        x
    }
}

/// `x` clamped into the ternary range [-1, 1].
pub open spec fn clamp_unit(x: int) -> int {
    if x > 1 {
        1
    } else if x < -1 {
        -1
    } else {
        x
    }
}

/// The sign of an `i8`, computed without overflow.
pub(crate) fn sign_i8(x: i8) -> (r: i8)
    ensures
        r == sign(x as int),
{
    if x > 0 {
        1
    } else if x < 0 {
        -1
    } else {
        0
    }
}

/// An `i8` clamped into [-1, 1].
pub(crate) fn clamp_unit_i8(x: i8) -> (r: i8)
    ensures
        r == clamp_unit(x as int),
{
    if x > 1 {
        1
    } else if x < -1 {
        -1
    } else {
        x
    }
}

impl TernaryNote {
    /// The numeric value of the note.
    pub open spec fn value(self) -> int {
        match self {
            TernaryNote::Flat => -1,
            TernaryNote::Rest => 0,
            TernaryNote::Sharp => 1,
        }
    }

    /// The note whose value is `v`, if there is one.
    pub open spec fn from_value(v: int) -> Option<TernaryNote> {
        if v == -1 {
            Some(TernaryNote::Flat)
        } else if v == 0 {
            Some(TernaryNote::Rest)
        } else if v == 1 {
            Some(TernaryNote::Sharp)
        } else {
            None
        }
    }

    /// The note that carries the sign of `x`.
    pub open spec fn of_sign(x: int) -> TernaryNote {
        if x > 0 {
            TernaryNote::Sharp
        } else if x < 0 {
            TernaryNote::Flat
        } else {
            TernaryNote::Rest
        }
    }

    /// Dissonance of two notes sounding together: 2 for a Sharp against a Flat, else 0.
    pub open spec fn dissonance(self, other: TernaryNote) -> int {
        if self.value() != 0 && other.value() != 0 && self.value() != other.value() {
            2
        } else {
            0
        }
    }

    pub fn to_i8(self) -> (r: i8)
        ensures
            r == self.value(),
    {
        match self {
            TernaryNote::Flat => -1,
            TernaryNote::Rest => 0,
            TernaryNote::Sharp => 1,
        }
    }

    pub fn from_i8(v: i8) -> (r: Option<Self>)
        ensures
            r == Self::from_value(v as int),
    {
        match v {
            -1 => Some(TernaryNote::Flat),
            0 => Some(TernaryNote::Rest),
            1 => Some(TernaryNote::Sharp),
            _ => None,
        }
    }

    /// Dissonance contribution: Sharp and Flat together = dissonant.
    pub fn dissonance_with(self, other: Self) -> (r: i8)
        ensures
            r == self.dissonance(other),
    {
        let a = self.to_i8();
        let b = other.to_i8();
        if a != 0 && b != 0 && a != b {
            2
        } else {
            0
        }
    }
}

/// Converting a note to its value and back gives the note again, and exactly
/// the values -1, 0 and 1 are notes.
pub proof fn lemma_note_value_roundtrip(n: TernaryNote, v: int)
    ensures
        TernaryNote::from_value(n.value()) == Some(n),
        -1 <= n.value() <= 1,
        TernaryNote::from_value(v) is Some <==> -1 <= v <= 1,
        TernaryNote::from_value(v) matches Some(m) ==> m.value() == v,
{
}

/// Dissonance is symmetric, a note is never dissonant with itself, and a pair is
/// dissonant exactly when one note is Sharp and the other Flat.
pub proof fn lemma_dissonance_symmetric(a: TernaryNote, b: TernaryNote)
    ensures
        a.dissonance(b) == b.dissonance(a),
        a.dissonance(a) == 0,
        a.dissonance(b) == 2 <==> (a == TernaryNote::Sharp && b == TernaryNote::Flat) || (a
            == TernaryNote::Flat && b == TernaryNote::Sharp),
        a.dissonance(b) == 0 || a.dissonance(b) == 2,
{
}

} // verus!
