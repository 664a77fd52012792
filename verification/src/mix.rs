use vstd::prelude::*;

use crate::note::TernaryNote;

verus! {

/// Mixer that combines multiple voice outputs into a single ternary stream.
#[derive(Debug, Clone)]
pub struct JamMix {
    /// Weight for each voice index.
    pub weights: Vec<i8>,
}

/// The weight of voice `i`: its entry in `w`, or 1 past the end of `w`.
pub open spec fn weight_at(w: Seq<i8>, i: int) -> int {
    if 0 <= i < w.len() {
        w[i] as int
    } else {
        1
    }
}

/// The weighted sum of the first `k` values.
pub open spec fn weighted_sum(values: Seq<TernaryNote>, w: Seq<i8>, k: int) -> int
    decreases k,
{
    if k <= 0 {
        0
    } else {
        weighted_sum(values, w, k - 1) + values[k - 1].value() * weight_at(w, k - 1)
    }
}

/// Every running total of the weighted sum fits in an `i32`.
pub open spec fn weighted_sums_fit(values: Seq<TernaryNote>, w: Seq<i8>) -> bool {
    forall|k: int|
        0 <= k <= values.len() ==> i32::MIN <= #[trigger] weighted_sum(values, w, k) <= i32::MAX
}

/// How many of the first `k` values are `note`.
pub open spec fn count_note(values: Seq<TernaryNote>, note: TernaryNote, k: int) -> nat
    decreases k,
{
    if k <= 0 {
        0
    } else {
        count_note(values, note, k - 1) + if values[k - 1] == note {
            1nat
        } else {
            0nat
        }
    }
}

/// All values that are not Rest are the same note.
pub open spec fn all_agree(values: Seq<TernaryNote>) -> bool {
    forall|i: int, j: int|
        0 <= i < values.len() && 0 <= j < values.len() && values[i] != TernaryNote::Rest
            && values[j] != TernaryNote::Rest ==> #[trigger] values[i] == #[trigger] values[j]
}

/// The majority among non-rest values: the more frequent of Sharp and Flat, or
/// Rest on a tie.
pub open spec fn majority_note(values: Seq<TernaryNote>) -> TernaryNote {
    TernaryNote::of_sign(
        count_note(values, TernaryNote::Sharp, values.len() as int) - count_note(
            values,
            TernaryNote::Flat,
            values.len() as int,
        ),
    )
}

impl JamMix {
    pub fn new(weights: Vec<i8>) -> (m: Self)
        ensures
            m.weights@ == weights@,
    {
        JamMix { weights }
    }

    /// Mix a set of ternary values using weights.
    pub fn mix(&self, values: &[TernaryNote]) -> (r: TernaryNote)
        requires
            weighted_sums_fit(values@, self.weights@),
        ensures
            r == TernaryNote::of_sign(weighted_sum(values@, self.weights@, values@.len() as int)),
    {
        let mut sum: i32 = 0;
        let n = values.len();
        let mut i: usize = 0;
        while i < n
            invariant
                n == values@.len(),
                0 <= i <= n,
                sum == weighted_sum(values@, self.weights@, i as int),
                weighted_sums_fit(values@, self.weights@),
            decreases n - i,
        {
            let w: i8 = if i < self.weights.len() {
                self.weights[i]
            } else {
                1
            };
            let v: i8 = values[i].to_i8();
            assert(-128 <= (v as int) * (w as int) <= 128) by (nonlinear_arith)
                requires
                    -1 <= v <= 1,
                    -128 <= w <= 127,
            ;
            let term: i32 = (v as i32) * (w as i32);
            assert(weighted_sum(values@, self.weights@, (i + 1) as int) == sum + term);
            assert(i32::MIN <= weighted_sum(values@, self.weights@, (i + 1) as int) <= i32::MAX);
            sum = sum + term;
            i = i + 1;
        }
        if sum > 0 {
            TernaryNote::Sharp
        } else if sum < 0 {
            TernaryNote::Flat
        } else {
            TernaryNote::Rest
        }
    }

    /// Unanimous agreement: all non-rest voices have the same value.
    pub fn unanimous(&self, values: &[TernaryNote]) -> (r: bool)
        ensures
            r == all_agree(values@),
    {
        let n = values.len();
        let mut seen: Option<TernaryNote> = None;
        let mut i: usize = 0;
        while i < n
            invariant
                n == values@.len(),
                0 <= i <= n,
                seen is None ==> forall|k: int| 0 <= k < i ==> values@[k] == TernaryNote::Rest,
                seen matches Some(s) ==> s != TernaryNote::Rest && exists|k: int|
                    0 <= k < i && values@[k] == s,
                seen matches Some(s) ==> forall|k: int|
                    0 <= k < i && values@[k] != TernaryNote::Rest ==> values@[k] == s,
            decreases n - i,
        {
            let v = values[i];
            if v != TernaryNote::Rest {
                match seen {
                    None => {
                        seen = Some(v);
                    },
                    Some(s) => {
                        if s != v {
                            assert(!all_agree(values@)) by {
                                let k = choose|k: int| 0 <= k < i && values@[k] == s;
                                assert(values@[k] != values@[i as int]);
                            }
                            return false;
                        }
                    },
                }
            }
            i = i + 1;
        }
        true
    }

    /// Majority vote among non-rest values.
    pub fn majority(&self, values: &[TernaryNote]) -> (r: TernaryNote)
        requires
            count_note(values@, TernaryNote::Sharp, values@.len() as int) <= i32::MAX,
            count_note(values@, TernaryNote::Flat, values@.len() as int) <= i32::MAX,
        ensures
            r == majority_note(values@),
    {
        let mut sharp: i32 = 0;
        let mut flat: i32 = 0;
        let n = values.len();
        let mut i: usize = 0;
        while i < n
            invariant
                n == values@.len(),
                0 <= i <= n,
                sharp == count_note(values@, TernaryNote::Sharp, i as int),
                flat == count_note(values@, TernaryNote::Flat, i as int),
                count_note(values@, TernaryNote::Sharp, n as int) <= i32::MAX,
                count_note(values@, TernaryNote::Flat, n as int) <= i32::MAX,
            decreases n - i,
        {
            proof {
                lemma_count_monotone(values@, TernaryNote::Sharp, i + 1, n as int);
                lemma_count_monotone(values@, TernaryNote::Flat, i + 1, n as int);
            }
            match values[i] {
                TernaryNote::Sharp => sharp += 1,
                TernaryNote::Flat => flat += 1,
                TernaryNote::Rest => {},
            }
            i = i + 1;
        }
        if sharp > flat {
            TernaryNote::Sharp
        } else if flat > sharp {
            TernaryNote::Flat
        } else {
            TernaryNote::Rest
        }
    }
}

/// Counting over a longer prefix never gives less.
pub proof fn lemma_count_monotone(values: Seq<TernaryNote>, note: TernaryNote, j: int, k: int)
    requires
        j <= k,
    ensures
        count_note(values, note, j) <= count_note(values, note, k),
    decreases k - j,
{
    if j < k {
        lemma_count_monotone(values, note, j, k - 1);
    }
}

/// With every weight 1 (in particular with no weights at all), the weighted sum
/// is the number of Sharps minus the number of Flats; so such a mix gives the
/// majority vote.
pub proof fn lemma_unit_weights_mix_is_majority(values: Seq<TernaryNote>, w: Seq<i8>, k: int)
    requires
        forall|i: int| 0 <= i < w.len() ==> w[i] == 1,
        0 <= k <= values.len(),
    ensures
        weighted_sum(values, w, k) == count_note(values, TernaryNote::Sharp, k) - count_note(
            values,
            TernaryNote::Flat,
            k,
        ),
        k == values.len() ==> TernaryNote::of_sign(weighted_sum(values, w, k)) == majority_note(
            values,
        ),
    decreases k,
{
    if k > 0 {
        lemma_unit_weights_mix_is_majority(values, w, k - 1);
    }
}

/// When the non-rest values agree, the majority vote is their common note, or
/// Rest when every value rests.
pub proof fn lemma_agreement_decides_majority(values: Seq<TernaryNote>, i: int)
    requires
        all_agree(values),
        0 <= i < values.len(),
    ensures
        values[i] != TernaryNote::Rest ==> majority_note(values) == values[i],
        (forall|j: int| 0 <= j < values.len() ==> values[j] == TernaryNote::Rest)
            ==> majority_note(values) == TernaryNote::Rest,
{
    let n = values.len() as int;
    if values[i] == TernaryNote::Sharp {
        lemma_count_excludes(values, TernaryNote::Flat, n);
        lemma_count_includes(values, TernaryNote::Sharp, i, n);
    } else if values[i] == TernaryNote::Flat {
        lemma_count_excludes(values, TernaryNote::Sharp, n);
        lemma_count_includes(values, TernaryNote::Flat, i, n);
    }
    if forall|j: int| 0 <= j < values.len() ==> values[j] == TernaryNote::Rest {
        lemma_count_excludes(values, TernaryNote::Flat, n);
        lemma_count_excludes(values, TernaryNote::Sharp, n);
    }
}

/// A note that occurs nowhere in the first `k` values counts 0.
proof fn lemma_count_excludes(values: Seq<TernaryNote>, note: TernaryNote, k: int)
    requires
        0 <= k <= values.len(),
        forall|j: int| 0 <= j < k ==> values[j] != note,
    ensures
        count_note(values, note, k) == 0,
    decreases k,
{
    if k > 0 {
        lemma_count_excludes(values, note, k - 1);
    }
}

/// A note that occurs at position `i < k` counts at least 1.
proof fn lemma_count_includes(values: Seq<TernaryNote>, note: TernaryNote, i: int, k: int)
    requires
        0 <= i < k <= values.len(),
        values[i] == note,
    ensures
        count_note(values, note, k) >= 1,
    decreases k,
{
    if k - 1 > i {
        lemma_count_includes(values, note, i, k - 1);
    } else {
        lemma_count_monotone(values, note, 0, k - 1);
    }
}

/// Each voice counts with exactly its own weight (1 past the end of the
/// weights): adding voice `k` adds its value times that weight to the sum, and
/// a resting voice adds nothing whatever its weight.
pub proof fn lemma_mix_counts_each_weight(values: Seq<TernaryNote>, w: Seq<i8>, k: int)
    requires
        0 <= k < values.len(),
    ensures
        weighted_sum(values, w, k + 1) == weighted_sum(values, w, k) + values[k].value() * (if k
            < w.len() {
            w[k] as int
        } else {
            1int
        }),
        values[k] == TernaryNote::Rest ==> weighted_sum(values, w, k + 1) == weighted_sum(
            values,
            w,
            k,
        ),
        values[k] == TernaryNote::Sharp ==> weighted_sum(values, w, k + 1) == weighted_sum(
            values,
            w,
            k,
        ) + (if k < w.len() {
            w[k] as int
        } else {
            1int
        }),
        values[k] == TernaryNote::Flat ==> weighted_sum(values, w, k + 1) == weighted_sum(
            values,
            w,
            k,
        ) - (if k < w.len() {
            w[k] as int
        } else {
            1int
        }),
{
}

/// When only voice `i` sounds, the mix is that voice's note scaled by exactly
/// its weight: Sharp gives the sign of the weight, Flat the opposite sign.
pub proof fn lemma_mix_single_voice(values: Seq<TernaryNote>, w: Seq<i8>, i: int, k: int)
    requires
        0 <= i < values.len(),
        0 <= k <= values.len(),
        forall|j: int| 0 <= j < values.len() && j != i ==> values[j] == TernaryNote::Rest,
    ensures
        weighted_sum(values, w, k) == if k > i {
            values[i].value() * (if i < w.len() {
                w[i] as int
            } else {
                1int
            })
        } else {
            0
        },
    decreases k,
{
    if k > 0 {
        lemma_mix_single_voice(values, w, i, k - 1);
        lemma_mix_counts_each_weight(values, w, k - 1);
    }
}

/// The non-rest values agree exactly when Sharp and Flat do not both occur.
pub proof fn lemma_agreement_means_no_opposition(values: Seq<TernaryNote>)
    ensures
        all_agree(values) <==> !((exists|i: int|
            0 <= i < values.len() && values[i] == TernaryNote::Sharp) && (exists|j: int|
            0 <= j < values.len() && values[j] == TernaryNote::Flat)),
{
    if exists|i: int| 0 <= i < values.len() && values[i] == TernaryNote::Sharp {
        if exists|j: int| 0 <= j < values.len() && values[j] == TernaryNote::Flat {
            let i = choose|i: int| 0 <= i < values.len() && values[i] == TernaryNote::Sharp;
            let j = choose|j: int| 0 <= j < values.len() && values[j] == TernaryNote::Flat;
            assert(values[i] != values[j]);
        }
    }
}

} // verus!
