use vstd::prelude::*;

verus! {

/// Tempo synchronization between agents.
#[derive(Debug, Clone)]
pub struct JamSync {
    /// Beats per measure.
    pub beats_per_measure: u32,
    /// Current beat within the measure (0-indexed).
    pub current_beat: u32,
    /// Global tempo in ticks per beat.
    pub ticks_per_beat: u32,
    /// Accumulated ticks.
    pub tick_counter: u32,
}

impl JamSync {
    /// Whether the next tick completes a beat.
    pub open spec fn starts_beat(self) -> bool {
        self.tick_counter + 1 >= self.ticks_per_beat
    }

    /// The inputs on which `tick` neither overflows nor divides by zero.
    pub open spec fn can_tick(self) -> bool {
        &&& self.tick_counter < u32::MAX
        &&& self.starts_beat() ==> self.beats_per_measure > 0 && self.current_beat < u32::MAX
    }

    /// The clock after one tick.
    pub open spec fn ticked(self) -> JamSync {
        if self.starts_beat() {
            JamSync {
                tick_counter: 0,
                current_beat: ((self.current_beat + 1) % (self.beats_per_measure as int)) as u32,
                ..self
            }
        } else {
            JamSync { tick_counter: (self.tick_counter + 1) as u32, ..self }
        }
    }

    /// The clock after `n` ticks.
    pub open spec fn ticked_n(self, n: nat) -> JamSync
        decreases n,
    {
        if n == 0 {
            self
        } else {
            self.ticked_n((n - 1) as nat).ticked()
        }
    }

    /// A clock whose beat lies within its measure and whose counter lies within
    /// its beat.
    pub open spec fn wf(self) -> bool {
        &&& self.beats_per_measure > 0
        &&& self.current_beat < self.beats_per_measure
        &&& self.tick_counter < self.ticks_per_beat || self.tick_counter == 0
    }

    /// The tick within the measure at which the clock stands.
    pub open spec fn position(self) -> int {
        self.current_beat * self.ticks_per_beat + self.tick_counter
    }

    /// The number of ticks in one measure.
    pub open spec fn measure_len(self) -> int {
        self.beats_per_measure * self.ticks_per_beat
    }

    pub fn new(beats_per_measure: u32, ticks_per_beat: u32) -> (s: Self)
        ensures
            s.beats_per_measure == beats_per_measure,
            s.ticks_per_beat == ticks_per_beat,
            s.current_beat == 0,
            s.tick_counter == 0,
    {
        JamSync { beats_per_measure, current_beat: 0, ticks_per_beat, tick_counter: 0 }
    }

    /// Advance by one tick. Returns true when a new beat starts.
    pub fn tick(&mut self) -> (r: bool)
        requires
            old(self).can_tick(),
        ensures
            r == old(self).starts_beat(),
            *final(self) == old(self).ticked(),
    {
        self.tick_counter += 1;
        if self.tick_counter >= self.ticks_per_beat {
            self.tick_counter = 0;
            self.current_beat = (self.current_beat + 1) % self.beats_per_measure;
            true
        } else {
            false
        }
    }

    /// Current beat index.
    pub fn beat(&self) -> (r: u32)
        ensures
            r == self.current_beat,
    {
        self.current_beat
    }

    /// Is this the downbeat (first beat)?
    pub fn is_downbeat(&self) -> (r: bool)
        ensures
            r == (self.current_beat == 0 && self.tick_counter == 0),
    {
        self.current_beat == 0 && self.tick_counter == 0
    }

    /// Total ticks in one full measure.
    pub fn measure_ticks(&self) -> (r: u32)
        requires
            self.measure_len() <= u32::MAX,
        ensures
            r == self.measure_len(),
    {
        self.beats_per_measure * self.ticks_per_beat
    }

    /// Reset to beginning of measure.
    pub fn reset(&mut self)
        ensures
            *final(self) == (JamSync { current_beat: 0, tick_counter: 0, ..*old(self) }),
    {
        self.current_beat = 0;
        self.tick_counter = 0;
    }
}

/// A well-formed clock can always tick, and ticking keeps it well formed.
pub proof fn lemma_tick_keeps_wf(s: JamSync)
    requires
        s.wf(),
    ensures
        s.can_tick(),
        s.ticked().wf(),
{
}

/// On a well-formed clock with at least one tick per beat, each tick moves the
/// clock one tick further through the measure, wrapping at the end of the
/// measure, and a tick starts a new beat exactly when it reaches a multiple of
/// the beat length.
pub proof fn lemma_tick_advances_position(s: JamSync)
    requires
        s.wf(),
        s.ticks_per_beat > 0,
    ensures
        0 <= s.position() < s.measure_len(),
        s.ticked().position() == (s.position() + 1) % s.measure_len(),
        s.starts_beat() <==> (s.position() + 1) % (s.ticks_per_beat as int) == 0,
{
    let b = s.current_beat as int;
    let t = s.ticks_per_beat as int;
    let c = s.tick_counter as int;
    let bm = s.beats_per_measure as int;
    assert(b * t + c < bm * t) by (nonlinear_arith)
        requires
            0 <= b < bm,
            0 <= c < t,
    ;
    assert(0 <= b * t) by (nonlinear_arith)
        requires
            0 <= b,
            0 <= t,
    ;
    if s.starts_beat() {
        assert(c == t - 1);
        assert((b * t + c + 1) == (b + 1) * t) by (nonlinear_arith)
            requires
                c == t - 1,
        ;
        if b + 1 < bm {
            assert((b + 1) * t < bm * t) by (nonlinear_arith)
                requires
                    b + 1 < bm,
                    t > 0,
            ;
            assert(0 <= (b + 1) * t) by (nonlinear_arith)
                requires
                    0 <= b,
                    0 <= t,
            ;
            vstd::arithmetic::div_mod::lemma_small_mod(((b + 1) * t) as nat, (bm * t) as nat);
            vstd::arithmetic::div_mod::lemma_small_mod((b + 1) as nat, bm as nat);
            assert(s.ticked().current_beat == b + 1);
            assert(s.ticked().position() == (b + 1) * t);
        } else {
            assert(b + 1 == bm);
            vstd::arithmetic::div_mod::lemma_mod_self_0(bm * t);
            vstd::arithmetic::div_mod::lemma_mod_self_0(bm);
            let nb = s.ticked().current_beat as int;
            assert(nb == 0);
            assert(nb * t == 0) by (nonlinear_arith)
                requires
                    nb == 0,
            ;
            assert((b + 1) * t == bm * t);
        }
        assert(s.ticked().position() == (b * t + c + 1) % (bm * t));
        vstd::arithmetic::div_mod::lemma_mod_multiples_basic(b + 1, t);
    } else {
        assert(b * t + c + 1 < bm * t) by (nonlinear_arith)
            requires
                0 <= b < bm,
                0 <= c,
                c + 1 < t,
        ;
        vstd::arithmetic::div_mod::lemma_small_mod((b * t + c + 1) as nat, (bm * t) as nat);
        assert((b * t + (c + 1)) % t == (c + 1) % t) by {
            vstd::arithmetic::div_mod::lemma_mod_multiples_vanish(b, c + 1, t);
        }
        vstd::arithmetic::div_mod::lemma_small_mod((c + 1) as nat, t as nat);
    }
}

/// A well-formed clock with at least one tick per beat stands, after `n` ticks,
/// `n` ticks further through the measure (modulo its length), and it is on the
/// downbeat exactly when that position is the start of the measure.
pub proof fn lemma_ticks_keep_time(s: JamSync, n: nat)
    requires
        s.wf(),
        s.ticks_per_beat > 0,
    ensures
        s.ticked_n(n).wf(),
        s.ticked_n(n).beats_per_measure == s.beats_per_measure,
        s.ticked_n(n).ticks_per_beat == s.ticks_per_beat,
        s.ticked_n(n).position() == (s.position() + n) % s.measure_len(),
        (s.ticked_n(n).current_beat == 0 && s.ticked_n(n).tick_counter == 0) <==> (s.position()
            + n) % s.measure_len() == 0,
    decreases n,
{
    let m = s.measure_len();
    lemma_tick_advances_position(s);
    if n == 0 {
        vstd::arithmetic::div_mod::lemma_small_mod(s.position() as nat, m as nat);
    } else {
        let prev = s.ticked_n((n - 1) as nat);
        lemma_ticks_keep_time(s, (n - 1) as nat);
        lemma_tick_keeps_wf(prev);
        lemma_tick_advances_position(prev);
        vstd::arithmetic::div_mod::lemma_add_mod_noop_right(1, s.position() + (n - 1), m);
    }
    let last = s.ticked_n(n);
    let b = last.current_beat as int;
    let t = last.ticks_per_beat as int;
    let c = last.tick_counter as int;
    assert(b * t + c == 0 <==> (b == 0 && c == 0)) by (nonlinear_arith)
        requires
            0 <= b,
            0 <= c,
            t > 0,
    ;
}

/// A fresh clock of `b` beats of `t` ticks (as `JamSync::new(b, t)` makes it)
/// stands, after `k` ticks, at counter `k mod t` and beat `(k / t) mod b`; the
/// `k`-th tick starts a new beat exactly when `k` is a multiple of `t`; and the
/// clock is on the downbeat exactly when `k` is a multiple of `b * t`, the
/// measure length.
pub proof fn lemma_fresh_clock_counts(b: u32, t: u32, k: nat)
    requires
        b >= 1,
        t >= 1,
    ensures
        ({
            let s = JamSync { beats_per_measure: b, current_beat: 0, ticks_per_beat: t, tick_counter: 0 };
            &&& s.ticked_n(k).tick_counter == (k as int) % (t as int)
            &&& s.ticked_n(k).current_beat == ((k as int) / (t as int)) % (b as int)
            &&& k >= 1 ==> (s.ticked_n((k - 1) as nat).starts_beat() <==> (k as int) % (t as int) == 0)
            &&& (s.ticked_n(k).current_beat == 0 && s.ticked_n(k).tick_counter == 0) <==> (k as int) % (
            (b as int) * (t as int)) == 0
        }),
{
    let s = JamSync { beats_per_measure: b, current_beat: 0, ticks_per_beat: t, tick_counter: 0 };
    let bi = b as int;
    let ti = t as int;
    let ki = k as int;
    lemma_ticks_keep_time(s, k);
    let x = s.ticked_n(k);
    assert(s.position() == 0) by (nonlinear_arith)
        requires
            s.current_beat == 0,
            s.tick_counter == 0,
    ;
    assert(s.measure_len() == ti * bi) by (nonlinear_arith)
        requires
            s.beats_per_measure == bi,
            s.ticks_per_beat == ti,
    ;
    assert(x.position() == ki % (ti * bi));
    vstd::arithmetic::div_mod::lemma_breakdown(ki, ti, bi);
    assert(ki % (ti * bi) == ti * ((ki / ti) % bi) + ki % ti);
    let q = (ki / ti) % bi;
    let r = ki % ti;
    vstd::arithmetic::div_mod::lemma_mod_pos_bound(ki, ti);
    assert(x.position() == (x.current_beat as int) * ti + (x.tick_counter as int));
    vstd::arithmetic::div_mod::lemma_fundamental_div_mod_converse(
        x.position(),
        ti,
        x.current_beat as int,
        x.tick_counter as int,
    );
    assert(ti * q + r == q * ti + r) by (nonlinear_arith);
    vstd::arithmetic::div_mod::lemma_fundamental_div_mod_converse(x.position(), ti, q, r);
    assert(bi * ti == ti * bi) by (nonlinear_arith);
    if k >= 1 {
        let y = s.ticked_n((k - 1) as nat);
        lemma_ticks_keep_time(s, (k - 1) as nat);
        assert(x == y.ticked());
    }
}

} // verus!
