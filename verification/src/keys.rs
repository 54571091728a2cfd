//! Key repeat: a held key fires the tick it goes down, then again every `period` ticks once it
//! has been down for `delay`. A tap adds exactly one; a hold pours them in.

use vstd::prelude::*;

verus! {

/// Whether a key that has been down for `held` ticks before this one fires on this one.
pub open spec fn fires_at(held: nat, delay: nat, period: nat) -> bool {
    held == 0 || (held >= delay && (held - delay) % (period as int) == 0)
}

/// How many times a key fires over its first `ticks` ticks of being held.
pub open spec fn fired(ticks: nat, delay: nat, period: nat) -> nat
    decreases ticks,
{
    if ticks == 0 {
        0
    } else {
        fired((ticks - 1) as nat, delay, period) + if fires_at(
            (ticks - 1) as nat,
            delay,
            period,
        ) {
            1nat
        } else {
            0nat
        }
    }
}

/// The same count in closed form: one for going down, then one every `period` ticks from
/// `delay` on.
pub open spec fn fired_closed(ticks: nat, delay: nat, period: nat) -> nat {
    if ticks == 0 {
        0
    } else if ticks - 1 >= delay && delay > 0 {
        (1 + (ticks - 1 - delay) / (period as int) + 1) as nat
    } else {
        1
    }
}

/// One tick of key repeat. `held` counts the ticks the key has been down before this one; a
/// key that is up resets it. Returns whether the key fires this tick.
pub fn repeat_key(held: &mut u32, down: bool, delay: u32, period: u32) -> (fire: bool)
    requires
        period > 0,
        down ==> *old(held) < u32::MAX,
    ensures
        fire == (down && fires_at(*old(held) as nat, delay as nat, period as nat)),
        *final(held) == if down {
            *old(held) + 1
        } else {
            0
        },
{
    if !down {
        *held = 0;
        return false;
    }
    let fire = *held == 0 || (*held >= delay && (*held - delay) % period == 0);
    *held = *held + 1;
    fire
}

/// Holding a key for `ticks` ticks fires it once for going down and then once every `period`
/// ticks from `delay` on; in particular a tap, one tick down, fires exactly once.
pub proof fn held_key_fires(ticks: nat, delay: nat, period: nat)
    requires
        period > 0,
        delay > 0,
    ensures
        fired(ticks, delay, period) == fired_closed(ticks, delay, period),
        ticks >= 1 ==> fired(ticks, delay, period) >= 1,
    decreases ticks,
{
    if ticks > 0 {
        let n = (ticks - 1) as nat;
        held_key_fires(n, delay, period);
        let p = period as int;
        assert(fired(ticks, delay, period) == fired(n, delay, period) + if fires_at(
            n,
            delay,
            period,
        ) {
            1nat
        } else {
            0nat
        });
        if n == delay {
            vstd::arithmetic::div_mod::lemma_small_mod(0, period);
            vstd::arithmetic::div_mod::lemma_div_of0(p);
            assert(0int / p == 0);
            assert(fires_at(n, delay, period));
        } else if n > delay {
            let x = (n - 1 - delay) as int;
            lemma_div_step(x, p);
            assert(fires_at(n, delay, period) == ((x + 1) % p == 0));
        }
    }
}

/// Counting on by one crosses a multiple of `p` exactly when the new value is one.
proof fn lemma_div_step(x: int, p: int)
    requires
        x >= 0,
        p > 0,
    ensures
        (x + 1) / p == x / p + if (x + 1) % p == 0 {
            1int
        } else {
            0int
        },
{
    vstd::arithmetic::div_mod::lemma_fundamental_div_mod(x, p);
    vstd::arithmetic::div_mod::lemma_fundamental_div_mod(x + 1, p);
    vstd::arithmetic::div_mod::lemma_mod_bound(x, p);
    vstd::arithmetic::div_mod::lemma_mod_bound(x + 1, p);
    let q1 = x / p;
    let q2 = (x + 1) / p;
    let r1 = x % p;
    let r2 = (x + 1) % p;
    assert(p * (q2 - q1) == 1 + r1 - r2) by (nonlinear_arith)
        requires
            x == p * q1 + r1,
            x + 1 == p * q2 + r2,
    ;
    if r2 == 0 {
        assert(q2 - q1 == 1) by (nonlinear_arith)
            requires
                p * (q2 - q1) == 1 + r1,
                0 <= r1 < p,
        ;
    } else {
        assert(q2 - q1 == 0) by (nonlinear_arith)
            requires
                p * (q2 - q1) == 1 + r1 - r2,
                0 <= r1 < p,
                0 < r2 < p,
        ;
    }
}

} // verus!
