//! Typewriter effect: a state machine that reveals dialogue text one
//! character (Unicode scalar value) at a time.
//!
//! Time is measured in nanoseconds.  A speed is a per-character interval
//! in microseconds; an interval of zero reveals the whole text at once.
use vstd::prelude::*;
use vstd::arithmetic::div_mod::{lemma_fundamental_div_mod, lemma_fundamental_div_mod_converse, lemma_hoist_over_denominator};

verus! {

/// Display speed of the typewriter.
#[derive(Debug, Clone, Copy, PartialEq, Eq, Structural)]
pub enum TypewriterSpeed {
    /// Everything at once (0 µs per character).
    Instant,
    /// 50 ms per character.
    Slow,
    /// 30 ms per character (the default).
    Normal,
    /// 15 ms per character.
    Fast,
    /// A chosen interval, in microseconds per character; 0 behaves as `Instant`.
    Custom(u64),
}

/// Interval of a speed, in microseconds per character.
pub open spec fn speed_micros(speed: TypewriterSpeed) -> nat {
    match speed {
        TypewriterSpeed::Instant => 0,
        TypewriterSpeed::Slow => 50_000,
        TypewriterSpeed::Normal => 30_000,
        TypewriterSpeed::Fast => 15_000,
        TypewriterSpeed::Custom(us) => us as nat,
    }
}

/// Interval of a speed, in nanoseconds per character.
pub open spec fn interval_nanos(speed: TypewriterSpeed) -> nat {
    speed_micros(speed) * 1000
}

/// Largest interval any speed can have, in nanoseconds.
pub open spec fn max_interval_nanos() -> nat {
    0xffff_ffff_ffff_ffffnat * 1000
}

impl TypewriterSpeed {
    /// Microseconds per character of this speed.
    pub fn micros_per_char(&self) -> (us: u64)
        ensures
            us as nat == speed_micros(*self),
    {
        match self {
            TypewriterSpeed::Instant => 0,
            TypewriterSpeed::Slow => 50_000,
            TypewriterSpeed::Normal => 30_000,
            TypewriterSpeed::Fast => 15_000,
            TypewriterSpeed::Custom(us) => *us,
        }
    }
}

/// Abstract state of a [`Typewriter`].
pub struct TypewriterModel {
    pub speed: TypewriterSpeed,
    /// Number of characters of the current text.
    pub total: nat,
    /// Number of characters shown so far.
    pub visible: nat,
    /// Time accumulated since the last character was revealed, in nanoseconds.
    pub elapsed: nat,
    pub complete: bool,
    pub skipped: bool,
}

/// The invariant every reachable typewriter state satisfies.
pub open spec fn model_wf(m: TypewriterModel) -> bool {
    &&& m.visible <= m.total
    &&& (m.complete <==> m.visible == m.total)
    &&& (m.skipped ==> m.complete)
    &&& m.elapsed <= max_interval_nanos()
}

/// State after `delta` nanoseconds of animation.
pub open spec fn advanced(m: TypewriterModel, delta: nat) -> TypewriterModel {
    if m.complete {
        m
    } else if interval_nanos(m.speed) == 0 {
        TypewriterModel { visible: m.total, complete: true, ..m }
    } else {
        let e = m.elapsed + delta;
        let steps = e / interval_nanos(m.speed);
        if steps >= m.total - m.visible {
            TypewriterModel { visible: m.total, complete: true, elapsed: 0, ..m }
        } else {
            TypewriterModel {
                visible: m.visible + steps,
                elapsed: e % interval_nanos(m.speed),
                ..m
            }
        }
    }
}

/// Whether `delta` nanoseconds of animation reveal at least one character.
pub open spec fn advance_reveals(m: TypewriterModel, delta: nat) -> bool {
    !m.complete && (interval_nanos(m.speed) == 0 || (m.elapsed + delta) / interval_nanos(m.speed)
        > 0)
}

/// State after switching to a text of `total` characters.
pub open spec fn reset_to(m: TypewriterModel, total: nat) -> TypewriterModel {
    TypewriterModel {
        speed: m.speed,
        total,
        visible: 0,
        elapsed: 0,
        complete: total == 0,
        skipped: false,
    }
}

/// State after skipping the animation.
pub open spec fn skipped_model(m: TypewriterModel) -> TypewriterModel {
    if m.complete {
        TypewriterModel { skipped: true, ..m }
    } else {
        TypewriterModel { visible: m.total, complete: true, skipped: true, elapsed: 0, ..m }
    }
}

/// Typewriter state machine.
#[derive(Debug, Clone)]
pub struct Typewriter {
    speed: TypewriterSpeed,
    total_chars: usize,
    visible_chars: usize,
    elapsed_nanos: u128,
    is_complete: bool,
    is_skipped: bool,
}

impl View for Typewriter {
    type V = TypewriterModel;

    closed spec fn view(&self) -> TypewriterModel {
        TypewriterModel {
            speed: self.speed,
            total: self.total_chars as nat,
            visible: self.visible_chars as nat,
            elapsed: self.elapsed_nanos as nat,
            complete: self.is_complete,
            skipped: self.is_skipped,
        }
    }
}

proof fn lemma_steps(e: nat, i: nat, k: nat, r: nat)
    requires
        i > 0,
        e == k * i + r,
    ensures
        e / i >= k,
        r < i ==> e / i == k && e % i == r,
{
    lemma_hoist_over_denominator(r as int, k as int, i);
    assert(r as int / i as int >= 0) by (nonlinear_arith)
        requires
            r >= 0,
            i > 0,
    ;
    if r < i {
        lemma_fundamental_div_mod_converse(e as int, i as int, k as int, r as int);
    }
}

impl Typewriter {
    /// Well-formedness of the concrete state.
    pub open spec fn wf(&self) -> bool {
        model_wf(self@)
    }

    /// A typewriter with no text; an empty text counts as complete.
    pub fn new(speed: TypewriterSpeed) -> (tw: Self)
        ensures
            tw.wf(),
            tw@ == (TypewriterModel {
                speed,
                total: 0,
                visible: 0,
                elapsed: 0,
                complete: true,
                skipped: false,
            }),
    {
        Typewriter {
            speed,
            total_chars: 0,
            visible_chars: 0,
            elapsed_nanos: 0,
            is_complete: true,
            is_skipped: false,
        }
    }

    /// Starts over with `new_text`; nothing is shown yet, and an empty text is complete.
    pub fn reset(&mut self, new_text: &str)
        requires
            old(self).wf(),
        ensures
            final(self).wf(),
            final(self)@ == reset_to(old(self)@, new_text@.len()),
    {
        self.total_chars = new_text.unicode_len();
        self.visible_chars = 0;
        self.elapsed_nanos = 0;
        self.is_skipped = false;
        self.is_complete = self.total_chars == 0;
    }

    /// Advances the animation by `delta_nanos`; returns whether more characters became visible.
    pub fn update(&mut self, delta_nanos: u64) -> (changed: bool)
        requires
            old(self).wf(),
        ensures
            final(self).wf(),
            final(self)@ == advanced(old(self)@, delta_nanos as nat),
            changed == advance_reveals(old(self)@, delta_nanos as nat),
    {
        if self.is_complete {
            return false;
        }
        let us = self.speed.micros_per_char();
        if us == 0 {
            self.visible_chars = self.total_chars;
            self.is_complete = true;
            return true;
        }
        let ghost m0 = self@;
        let interval: u128 = us as u128 * 1000;
        assert(interval as nat == interval_nanos(m0.speed));
        assert(interval_nanos(m0.speed) <= max_interval_nanos());
        self.elapsed_nanos = self.elapsed_nanos + delta_nanos as u128;
        let ghost e0 = self.elapsed_nanos as nat;
        let ghost v0 = self.visible_chars as nat;
        let mut changed = false;
        while self.elapsed_nanos >= interval && self.visible_chars < self.total_chars
            invariant
                interval > 0,
                interval as nat == interval_nanos(m0.speed),
                self.speed == m0.speed,
                self.total_chars as nat == m0.total,
                self.is_complete == m0.complete,
                self.is_skipped == m0.skipped,
                !m0.complete,
                v0 == m0.visible,
                e0 == m0.elapsed + delta_nanos,
                v0 <= self.visible_chars <= self.total_chars,
                self.elapsed_nanos as nat + (self.visible_chars - v0) * interval == e0,
                changed == (self.visible_chars > v0),
            decreases self.total_chars - self.visible_chars,
        {
            self.visible_chars = self.visible_chars + 1;
            assert((self.visible_chars - v0) * interval == (self.visible_chars - 1 - v0) * interval
                + interval) by (nonlinear_arith);
            self.elapsed_nanos = self.elapsed_nanos - interval;
            changed = true;
        }
        proof {
            let k = (self.visible_chars - v0) as nat;
            lemma_steps(e0, interval as nat, k, self.elapsed_nanos as nat);
        }
        if self.visible_chars >= self.total_chars {
            self.visible_chars = self.total_chars;
            self.is_complete = true;
            self.elapsed_nanos = 0;
        }
        changed
    }

    /// Shows the whole text at once and marks the animation as skipped (idempotent).
    pub fn skip(&mut self)
        requires
            old(self).wf(),
        ensures
            final(self).wf(),
            final(self)@ == skipped_model(old(self)@),
    {
        if self.is_complete && !self.is_skipped {
            self.is_skipped = true;
            return;
        }
        if self.is_complete {
            return;
        }
        self.visible_chars = self.total_chars;
        self.is_complete = true;
        self.is_skipped = true;
        self.elapsed_nanos = 0;
    }

    /// Number of characters shown.
    pub fn visible_chars(&self) -> (n: usize)
        ensures
            n as nat == self@.visible,
    {
        self.visible_chars
    }

    /// Number of characters of the current text.
    pub fn total_chars(&self) -> (n: usize)
        ensures
            n as nat == self@.total,
    {
        self.total_chars
    }

    /// Whether every character is shown.
    pub fn is_complete(&self) -> (b: bool)
        ensures
            b == self@.complete,
    {
        self.is_complete
    }

    /// Whether the animation was cut short by [`Typewriter::skip`].
    pub fn is_skipped(&self) -> (b: bool)
        ensures
            b == self@.skipped,
    {
        self.is_skipped
    }

    /// Current speed.
    pub fn speed(&self) -> (s: TypewriterSpeed)
        ensures
            s == self@.speed,
    {
        self.speed
    }

    /// Changes the speed; it takes effect at the next update.
    pub fn set_speed(&mut self, speed: TypewriterSpeed)
        requires
            old(self).wf(),
        ensures
            final(self).wf(),
            final(self)@ == (TypewriterModel { speed, ..old(self)@ }),
    {
        self.speed = speed;
    }
}

/// Splitting time does not matter: animating for `a` and then for `b`
/// nanoseconds leaves the typewriter exactly where animating for `a + b`
/// nanoseconds at once does.
pub proof fn law_update_additive(m: TypewriterModel, a: nat, b: nat)
    requires
        model_wf(m),
    ensures
        advanced(advanced(m, a), b) == advanced(m, a + b),
{
    let i = interval_nanos(m.speed);
    if m.complete || i == 0 {
    } else {
        let e1 = m.elapsed + a;
        let q1 = e1 / i;
        let r1 = e1 % i;
        lemma_fundamental_div_mod(e1 as int, i as int);
        assert(0 <= r1 < i) by {
            vstd::arithmetic::div_mod::lemma_mod_bound(e1 as int, i as int);
        }
        let x = r1 + b;
        let e = m.elapsed + a + b;
        lemma_fundamental_div_mod(x as int, i as int);
        assert(0 <= x % i < i) by {
            vstd::arithmetic::div_mod::lemma_mod_bound(x as int, i as int);
        }
        assert(e == (q1 + x / i) * i + x % i) by (nonlinear_arith)
            requires
                e1 == i * q1 + r1,
                x == i * (x / i) + x % i,
                x == r1 + b,
                e == e1 + b,
        ;
        lemma_fundamental_div_mod_converse(e as int, i as int, (q1 + x / i) as int, (x % i) as int);
        assert(e / i == q1 + x / i);
        assert(e % i == x % i);
        assert(e1 / i <= e / i);
    }
}

/// Revealed characters never exceed the text, and completion means everything is shown.
pub proof fn law_visible_bounded(m: TypewriterModel, delta: nat)
    requires
        model_wf(m),
    ensures
        model_wf(advanced(m, delta)),
        model_wf(skipped_model(m)),
        advanced(m, delta).visible >= m.visible,
        advanced(m, delta).total == m.total,
        skipped_model(m).visible == m.total,
{
    let i = interval_nanos(m.speed);
    if !m.complete && i != 0 {
        let e = m.elapsed + delta;
        vstd::arithmetic::div_mod::lemma_mod_bound(e as int, i as int);
    }
}

} // verus!
