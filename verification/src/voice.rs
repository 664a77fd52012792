use vstd::prelude::*;

use crate::improv::ImprovRule;
use crate::note::{TernaryNote, clamp_unit, clamp_unit_i8};

verus! {

/// An agent's musical role in the jam.
#[derive(Debug, Clone)]
pub struct Voice {
    /// Unique voice identifier.
    pub id: u32,
    /// Agent's tendency toward Flat/Rest/Sharp (-1, 0, +1).
    pub tendency: i8,
    /// Improvised note sequence.
    pub notes: Vec<TernaryNote>,
    /// Current position in the note sequence.
    pub position: usize,
}

/// The abstract state of a voice.
pub struct VoiceModel {
    pub id: u32,
    pub tendency: i8,
    pub notes: Seq<TernaryNote>,
    pub position: nat,
}

impl View for Voice {
    type V = VoiceModel;

    open spec fn view(&self) -> VoiceModel {
        VoiceModel {
            id: self.id,
            tendency: self.tendency,
            notes: self.notes@,
            position: self.position as nat,
        }
    }
}

impl VoiceModel {
    /// Whether queued notes are left to play.
    pub open spec fn has_queued(self) -> bool {
        self.position < self.notes.len()
    }

    /// How many queued notes are left to play.
    pub open spec fn remaining(self) -> nat {
        if self.has_queued() {
            (self.notes.len() - self.position) as nat
        } else {
            0
        }
    }

    /// The note that `play_next` gives.
    pub open spec fn next_queued(self) -> TernaryNote {
        if self.has_queued() {
            self.notes[self.position as int]
        } else {
            TernaryNote::Rest
        }
    }

    /// The voice after `play_next`.
    pub open spec fn advanced(self) -> VoiceModel {
        if self.has_queued() {
            VoiceModel { position: self.position + 1, ..self }
        } else {
            self
        }
    }

    /// The last note of the sequence, or Rest for an empty sequence.
    pub open spec fn last_note(self) -> TernaryNote {
        if self.notes.len() > 0 {
            self.notes.last()
        } else {
            TernaryNote::Rest
        }
    }

    /// What the voice sounds on a tick of a session: its next queued note, or,
    /// once the queue is exhausted, an improvisation under `rule` from the last
    /// note of its sequence.
    pub open spec fn sounding(self, rule: ImprovRule) -> TernaryNote {
        if self.has_queued() {
            self.notes[self.position as int]
        } else {
            rule.next_note(self.last_note(), self.tendency as int)
        }
    }
}

impl Voice {
    pub fn new(id: u32, tendency: i8) -> (v: Self)
        ensures
            v@.id == id,
            v@.tendency == clamp_unit(tendency as int),
            v@.notes == Seq::<TernaryNote>::empty(),
            v@.position == 0,
    {
        Voice { id, tendency: clamp_unit_i8(tendency), notes: Vec::new(), position: 0 }
    }

    /// Play the next note, or Rest if sequence is exhausted.
    pub fn play_next(&mut self) -> (r: TernaryNote)
        ensures
            r == old(self)@.next_queued(),
            final(self)@ == old(self)@.advanced(),
    {
        if self.position < self.notes.len() {
            let note = self.notes[self.position];
            self.position += 1;
            note
        } else {
            TernaryNote::Rest
        }
    }

    /// Reset playback position.
    pub fn reset(&mut self)
        ensures
            final(self)@ == (VoiceModel { position: 0, ..old(self)@ }),
    {
        self.position = 0;
    }

    /// Append a note to the voice's sequence.
    pub fn add_note(&mut self, note: TernaryNote)
        ensures
            final(self)@ == (VoiceModel { notes: old(self)@.notes.push(note), ..old(self)@ }),
    {
        self.notes.push(note);
    }

    /// How many notes remain unplayed.
    pub fn remaining(&self) -> (r: usize)
        ensures
            r == self@.remaining(),
    {
        self.notes.len().saturating_sub(self.position)
    }
}

/// Playing a voice's whole queue gives its notes in order and then Rest;
/// `reset` makes every note playable again.
pub proof fn lemma_playback_order(v: VoiceModel)
    ensures
        v.has_queued() ==> v.next_queued() == v.notes[v.position as int] && v.advanced().remaining()
            == v.remaining() - 1,
        !v.has_queued() ==> v.next_queued() == TernaryNote::Rest && v.advanced() == v,
        (VoiceModel { position: 0, ..v }).remaining() == v.notes.len(),
{
}

/// The voice after `k` calls of `play_next`.
pub open spec fn played(v: VoiceModel, k: nat) -> VoiceModel
    decreases k,
{
    if k == 0 {
        v
    } else {
        played(v, (k - 1) as nat).advanced()
    }
}

/// The notes that `k` successive calls of `play_next` return, in order.
pub open spec fn played_notes(v: VoiceModel, k: nat) -> Seq<TernaryNote>
    decreases k,
{
    if k == 0 {
        Seq::empty()
    } else {
        played_notes(v, (k - 1) as nat).push(played(v, (k - 1) as nat).next_queued())
    }
}

/// From position `p`, `k` successive calls of `play_next` return the queued
/// notes `notes[p..p+k)` in order and Rest once the queue is exhausted; they
/// leave the notes alone, move the position to `min(p + k, len)` (or keep it
/// where it already lies past the queue), and leave no notes remaining once
/// `p + k` reaches the end.
pub proof fn lemma_play_k(v: VoiceModel, k: nat)
    ensures
        played_notes(v, k).len() == k,
        forall|j: int|
            0 <= j < k ==> #[trigger] played_notes(v, k)[j] == if v.position + j < v.notes.len() {
                v.notes[v.position + j]
            } else {
                TernaryNote::Rest
            },
        played(v, k).notes == v.notes,
        played(v, k).id == v.id,
        played(v, k).tendency == v.tendency,
        played(v, k).position == if !v.has_queued() {
            v.position
        } else if v.position + k <= v.notes.len() {
            v.position + k
        } else {
            v.notes.len()
        },
        v.position + k >= v.notes.len() ==> played(v, k).remaining() == 0,
    decreases k,
{
    if k > 0 {
        lemma_play_k(v, (k - 1) as nat);
        let prev = played_notes(v, (k - 1) as nat);
        assert forall|j: int| 0 <= j < k implies #[trigger] played_notes(v, k)[j] == if v.position
            + j < v.notes.len() {
            v.notes[v.position + j]
        } else {
            TernaryNote::Rest
        } by {
            if j < k - 1 {
                assert(played_notes(v, k)[j] == prev[j]);
            }
        }
    }
}

} // verus!
