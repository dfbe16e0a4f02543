use vstd::prelude::*;

verus! {

/// Timer decrements per second.
pub const TIMER_HZ: u64 = 60;

/// Nanoseconds in a second.
pub const NANOS_PER_SECOND: u64 = 1_000_000_000;

/// The two countdown timers and the time that has passed since their last
/// decrement.
///
/// Elapsed time is kept in sixtieths of a nanosecond, so that one timer period
/// is the whole number `NANOS_PER_SECOND` of them and nothing is lost to
/// rounding, however the elapsed time is cut into calls.
#[derive(Clone, Copy, Debug, PartialEq, Eq, Structural)]
pub struct Timers {
    /// The delay timer, which programs read to measure time.
    pub delay: u8,
    /// The sound timer: the buzzer sounds while it is not zero.
    pub sound: u8,
    /// The time since the last decrement, in sixtieths of a nanosecond.
    pub residue: u64,
}

/// The time at hand after `elapsed` more nanoseconds, in sixtieths of a
/// nanosecond: a nanosecond is `TIMER_HZ` of them.
pub open spec fn time_at_hand(residue: u64, elapsed: nat) -> nat {
    residue as nat + 60 * elapsed
}

/// The whole timer periods in the time at hand: a period is
/// `NANOS_PER_SECOND` sixtieths of a nanosecond.
pub open spec fn periods(residue: u64, elapsed: nat) -> nat {
    time_at_hand(residue, elapsed) / 1_000_000_000
}

/// A timer after `periods` decrements, none of which goes below zero.
pub open spec fn decayed(timer: u8, periods: nat) -> u8 {
    if periods >= timer {
        0
    } else {
        (timer - periods) as u8
    }
}

impl Timers {
    /// Less than one period is waiting to be consumed.
    pub open spec fn wf(self) -> bool {
        self.residue < NANOS_PER_SECOND
    }

    /// The timers after `elapsed` more nanoseconds: each has been decremented
    /// once for every whole period at hand, and the rest of the time is kept.
    pub open spec fn after(self, elapsed: nat) -> Timers {
        Timers {
            delay: decayed(self.delay, periods(self.residue, elapsed)),
            sound: decayed(self.sound, periods(self.residue, elapsed)),
            residue: (time_at_hand(self.residue, elapsed) % 1_000_000_000) as u64,
        }
    }

    /// Lets `elapsed` nanoseconds pass.
    pub fn advance(&mut self, elapsed: u64)
        ensures
            *final(self) == old(self).after(elapsed as nat),
            final(self).wf(),
        no_unwind
    {
        let at_hand: u128 = self.residue as u128 + 60u128 * (elapsed as u128);
        let whole: u128 = at_hand / 1_000_000_000u128;
        let rest: u128 = at_hand % 1_000_000_000u128;
        self.delay = if whole >= self.delay as u128 {
            0
        } else {
            self.delay - whole as u8
        };
        self.sound = if whole >= self.sound as u128 {
            0
        } else {
            self.sound - whole as u8
        };
        self.residue = rest as u64;
    }
}

/// Time passes at the same rate however it is cut up: letting `first` and then
/// `second` nanoseconds pass leaves the timers as letting `first + second`
/// pass at once.
pub proof fn lemma_after_additive(timers: Timers, first: nat, second: nat)
    ensures
        timers.after(first).wf(),
        timers.after(first).after(second) == timers.after(first + second),
{
    let p: int = 1_000_000_000;
    let a = time_at_hand(timers.residue, first) as int;
    let b = 60 * second as int;
    let q1 = a / p;
    let r1 = a % p;
    assert(a == p * q1 + r1 && 0 <= r1 < p) by {
        vstd::arithmetic::div_mod::lemma_fundamental_div_mod(a, p);
    }
    assert(0 <= q1) by {
        vstd::arithmetic::div_mod::lemma_div_pos_is_pos(a, p);
    }
    let mid = timers.after(first);
    assert(mid.residue == r1);
    let c = time_at_hand(mid.residue, second) as int;
    assert(c == r1 + b);
    let q2 = c / p;
    assert(0 <= q2) by {
        vstd::arithmetic::div_mod::lemma_div_pos_is_pos(c, p);
    }
    let total = time_at_hand(timers.residue, first + second) as int;
    assert(total == p * q1 + c);
    assert(total / p == q1 + q2 && total % p == c % p) by {
        vstd::arithmetic::div_mod::lemma_fundamental_div_mod(c, p);
        let r2 = c % p;
        assert(total == p * (q1 + q2) + r2) by (nonlinear_arith)
            requires
                total == p * q1 + c,
                c == p * q2 + r2,
        ;
        vstd::arithmetic::div_mod::lemma_fundamental_div_mod_converse(total, p, q1 + q2, r2);
    }
    assert(decayed(decayed(timers.delay, q1 as nat), q2 as nat) == decayed(
        timers.delay,
        (q1 + q2) as nat,
    ));
    assert(decayed(decayed(timers.sound, q1 as nat), q2 as nat) == decayed(
        timers.sound,
        (q1 + q2) as nat,
    ));
}

} // verus!
