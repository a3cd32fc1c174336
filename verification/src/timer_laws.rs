//! What the timers are for: counting time, raising alarms at the programmed counts, and
//! watching over the firmware. Registers are named by their word in the block and taken
//! apart in arithmetic.

use crate::systimer::SystimerState;
use crate::timg::{TimerState, TimgState};
use vstd::prelude::*;

verus! {

/// First register word of timer `which` of a group.
pub open spec fn first_word(which: int) -> int {
    9 * which
}

/// Bit `k` of a register word is set.
pub open spec fn has_bit(w: u32, k: u32) -> bool {
    (w >> k) & 1 == 1
}

/// Cycles per count of timer `which`: its divider, or 1 where that is 0.
pub open spec fn cycles_per_count(s: TimgState, which: int) -> int {
    let d = (s.regs[first_word(which)] / 0x2000) % 0x1_0000;
    if d == 0 {
        1
    } else {
        d as int
    }
}

/// Count at which the alarm of timer `which` is due.
pub open spec fn alarm_count(s: TimgState, which: int) -> int {
    s.regs[first_word(which) + 4] + 0x1_0000_0000 * s.regs[first_word(which) + 5]
}

/// Count from which timer `which` goes on after a reload.
pub open spec fn reload_count(s: TimgState, which: int) -> int {
    s.regs[first_word(which) + 6] + 0x1_0000_0000 * s.regs[first_word(which) + 7]
}

proof fn lemma_timer_words(s: TimgState, which: int)
    requires
        s.wf(),
        which == 0 || which == 1,
    ensures
        ({
            let cfg = s.regs[first_word(which)];
            &&& s.cfg(which) == cfg
            &&& s.divider(which) == (cfg / 0x2000) % 0x1_0000
            &&& s.alarm(which) == alarm_count(s, which)
            &&& s.load(which) == reload_count(s, which)
            &&& cfg & crate::timg::CFG_EN != 0 <==> has_bit(cfg, 31)
            &&& cfg & crate::timg::CFG_INCREASE != 0 <==> has_bit(cfg, 30)
            &&& cfg & crate::timg::CFG_AUTORELOAD != 0 <==> has_bit(cfg, 29)
            &&& cfg & crate::timg::CFG_ALARM != 0 <==> has_bit(cfg, 10)
        }),
{
    let w = first_word(which);
    let cfg = s.regs[w];
    crate::bits::lemma_fields(cfg);
    crate::bits::lemma_wide(s.regs[w + 4], s.regs[w + 5], 0);
    crate::bits::lemma_wide(s.regs[w + 6], s.regs[w + 7], 0);
    crate::bits::lemma_bit_differs(cfg, 0, 31);
    crate::bits::lemma_bit_differs(cfg, 0, 30);
    crate::bits::lemma_bit_differs(cfg, 0, 29);
    crate::bits::lemma_bit_differs(cfg, 0, 10);
}

/// One cycle of a group does to a timer what its own cycle does, and leaves the timer's
/// registers alone.
proof fn lemma_cycle_is_own(s: TimgState, which: int)
    requires
        s.wf(),
        which == 0 || which == 1,
    ensures
        s.cycle().wf(),
        s.cycle().timer(which) == s.timer_cycle(which).timer(which),
        forall|k: int|
            0 <= k < 18 ==> #[trigger] s.cycle().regs[k] == s.regs[k],
        forall|k: int|
            0x48 <= 4 * k <= 0x5C ==> #[trigger] s.cycle().regs[k] == s.regs[k],
{
    let a = s.timer_cycle(0);
    let b = a.timer_cycle(1);
    assert(a.t1 == s.t1);
    assert(a.regs.len() == s.regs.len());
    assert(forall|k: int| 0 <= k < 28 ==> #[trigger] a.regs[k] == s.regs[k]);
    assert(forall|k: int| 0 <= k < 28 ==> #[trigger] b.regs[k] == s.regs[k]);
    assert(a.cfg(1) == s.cfg(1) && a.divider(1) == s.divider(1) && a.alarm(1) == s.alarm(1)
        && a.load(1) == s.load(1));
    let c = b.cali_cycle();
    assert(forall|k: int| 0 <= k < 28 ==> #[trigger] c.regs[k] == s.regs[k]);
    let d = c.wdt_cycle();
    assert(forall|k: int| 0 <= k < 28 ==> #[trigger] d.regs[k] == s.regs[k]);
}

/// A running timer without an alarm counts one up or down for every so many cycles as
/// its divider says: after `n` cycles it has moved by `n` over the divider. A stopped
/// one stands still.
pub proof fn law_timer_measures_time(s: TimgState, which: int, n: nat)
    requires
        s.wf(),
        which == 0 || which == 1,
        !has_bit(s.regs[first_word(which)], 10),
        s.timer(which).div_acc == 0,
    ensures
        ({
            let cfg = s.regs[first_word(which)];
            let moved = n as int / cycles_per_count(s, which);
            let c = s.timer(which).counter;
            let t = s.ticked(n).timer(which).counter;
            &&& !has_bit(cfg, 31) ==> t == c
            &&& has_bit(cfg, 31) && has_bit(cfg, 30) ==> t == (c + moved) % 0x1_0000_0000_0000_0000
            &&& has_bit(cfg, 31) && !has_bit(cfg, 30) ==> t == (c - moved) % 0x1_0000_0000_0000_0000
        }),
{
    lemma_measures(s, which, n);
    let d = cycles_per_count(s, which);
    assert(n as int / d >= 0) by (nonlinear_arith)
        requires
            d > 0,
            n >= 0,
    ;
}

#[verifier::spinoff_prover]
#[verifier::rlimit(80)]
proof fn lemma_measures(s: TimgState, which: int, n: nat)
    requires
        s.wf(),
        which == 0 || which == 1,
        !has_bit(s.regs[first_word(which)], 10),
        s.timer(which).div_acc == 0,
    ensures
        ({
            let cfg = s.regs[first_word(which)];
            let d = cycles_per_count(s, which);
            let moved = n as int / d;
            let c = s.timer(which).counter;
            let u = s.ticked(n);
            let t = u.timer(which);
            &&& u.wf()
            &&& u.regs[first_word(which)] == cfg
            &&& !has_bit(cfg, 31) ==> t == s.timer(which)
            &&& has_bit(cfg, 31) ==> t.div_acc == n as int % d
            &&& has_bit(cfg, 31) && has_bit(cfg, 30) ==> t.counter == (c + moved)
                % 0x1_0000_0000_0000_0000
            &&& has_bit(cfg, 31) && !has_bit(cfg, 30) ==> t.counter == (c - moved)
                % 0x1_0000_0000_0000_0000
        }),
    decreases n,
{
    let d = cycles_per_count(s, which);
    if n == 0 {
        assert(0int / d == 0 && 0int % d == 0) by (nonlinear_arith)
            requires
                d > 0,
        ;
    } else {
        let m = (n - 1) as nat;
        lemma_measures(s, which, m);
        let u = s.ticked(m);
        lemma_next_quotient(m as int, d);
        lemma_counting_step(u, which);
        assert(s.ticked(n) == u.cycle());
        assert(cycles_per_count(u, which) == d);
    }
}

/// One cycle of a timer without an alarm.
proof fn lemma_counting_step(u: TimgState, which: int)
    requires
        u.wf(),
        which == 0 || which == 1,
        !has_bit(u.regs[first_word(which)], 10),
        u.timer(which).div_acc < 0x1_0000,
    ensures
        ({
            let cfg = u.regs[first_word(which)];
            let d = cycles_per_count(u, which);
            let t = u.timer(which);
            let v = u.cycle().timer(which);
            &&& u.cycle().wf()
            &&& u.cycle().regs[first_word(which)] == cfg
            &&& !has_bit(cfg, 31) ==> v == t
            &&& has_bit(cfg, 31) && t.div_acc + 1 < d ==> v == (TimerState {
                div_acc: (t.div_acc + 1) as u64,
                ..t
            })
            &&& has_bit(cfg, 31) && t.div_acc + 1 >= d ==> v.div_acc == 0 && v.counter == if has_bit(
                cfg,
                30,
            ) {
                t.counter.wrapping_add(1)
            } else {
                t.counter.wrapping_sub(1)
            }
        }),
{
    lemma_cycle_is_own(u, which);
    lemma_timer_words(u, which);
}

/// One more cycle: the remainder grows, or the quotient does.
proof fn lemma_next_quotient(m: int, d: int)
    requires
        m >= 0,
        d > 0,
    ensures
        m % d + 1 < d ==> (m + 1) / d == m / d && (m + 1) % d == m % d + 1,
        m % d + 1 >= d ==> (m + 1) / d == m / d + 1 && (m + 1) % d == 0,
        0 <= m % d < d,
{
    vstd::arithmetic::div_mod::lemma_fundamental_div_mod(m, d);
    vstd::arithmetic::div_mod::lemma_mod_bound(m, d);
    let (q, r) = (m / d, m % d);
    assert(d * q == q * d) by (nonlinear_arith);
    if r + 1 < d {
        vstd::arithmetic::div_mod::lemma_fundamental_div_mod_converse(m + 1, d, q, r + 1);
    } else {
        assert(m + 1 == d * (q + 1)) by (nonlinear_arith)
            requires
                m == d * q + r,
                r + 1 == d,
        ;
        assert(d * (q + 1) == (q + 1) * d) by (nonlinear_arith);
        vstd::arithmetic::div_mod::lemma_fundamental_div_mod_converse(m + 1, d, q + 1, 0);
    }
}

/// A counting step of a timer with its alarm on: where it arrives at the alarm count,
/// up or down, its interrupt is raised, and with auto-reload it goes on from the reload
/// count. Anywhere else it just counts, and no interrupt is raised. The other timer
/// stays as it is.
pub proof fn law_alarm_is_exact(s: TimgState, which: int)
    requires
        s.wf(),
        which == 0 || which == 1,
        has_bit(s.regs[first_word(which)], 31),
        has_bit(s.regs[first_word(which)], 10),
        cycles_per_count(s, which) == 1,
        s.timer(which).div_acc < u64::MAX,
    ensures
        ({
            let cfg = s.regs[first_word(which)];
            let c = s.timer(which).counter;
            let step: int = if has_bit(cfg, 30) {
                1
            } else {
                -1
            };
            let next = (c + step) % 0x1_0000_0000_0000_0000;
            let t = s.timer_cycle(which);
            let bit = if which == 0 {
                1u32
            } else {
                2u32
            };
            &&& next == alarm_count(s, which) ==> t.regs[29] == s.regs[29] | bit
            &&& next != alarm_count(s, which) ==> t.regs[29] == s.regs[29]
            &&& t.timer(which).counter == if next == alarm_count(s, which) && has_bit(cfg, 29) {
                reload_count(s, which)
            } else {
                next
            }
            &&& t.timer(1 - which) == s.timer(1 - which)
        }),
{
    lemma_timer_words(s, which);
    crate::bits::lemma_constants();
}

/// Sum of the holds of the watchdog stages up to stage `i`.
pub open spec fn held_until(s: TimgState, i: int) -> int {
    if i == 0 {
        s.regs[20] as int
    } else if i == 1 {
        s.regs[20] + s.regs[21]
    } else if i == 2 {
        s.regs[20] + s.regs[21] + s.regs[22]
    } else {
        s.regs[20] + s.regs[21] + s.regs[22] + s.regs[23]
    }
}

/// Action programmed for stage `i`: 0 off, 1 interrupt, 2 and 3 reset.
pub open spec fn stage_action(s: TimgState, i: int) -> u32 {
    let c = s.regs[18];
    if i == 0 {
        (c / 0x2000_0000) % 4
    } else if i == 1 {
        (c / 0x800_0000) % 4
    } else if i == 2 {
        (c / 0x200_0000) % 4
    } else {
        (c / 0x80_0000) % 4
    }
}

/// Watchdog stages: stage `i` is due once the count reaches the sum of the holds up to
/// it, unless that is 0 or it has fired before. The interrupt is raised exactly by due
/// stages whose action is the interrupt, a reset is requested exactly by due stages whose
/// action is a reset.
pub proof fn law_watchdog_stages(s: TimgState)
    requires
        s.wf(),
    ensures
        ({
            let t = s.wdt_staged(4);
            let due = |i: int|
                !s.wdt_stage_fired[i] && held_until(s, i) != 0 && s.wdt_count >= held_until(s, i);
            &&& (exists|i: int| 0 <= i < 4 && #[trigger] due(i) && stage_action(s, i) == 1)
                ==> t.regs[29] == s.regs[29] | 4
            &&& (forall|i: int| 0 <= i < 4 && #[trigger] due(i) ==> stage_action(s, i) != 1)
                ==> t.regs[29] == s.regs[29]
            &&& t.wdt_reset <==> s.wdt_reset || exists|i: int|
                0 <= i < 4 && #[trigger] due(i) && stage_action(s, i) >= 2
            &&& forall|i: int|
                0 <= i < 4 ==> #[trigger] t.wdt_stage_fired[i] == (s.wdt_stage_fired[i] || due(i))
        }),
{
    let c = s.regs[18];
    crate::bits::lemma_fields(c);
    crate::bits::lemma_constants();
    let due = |i: int|
        !s.wdt_stage_fired[i] && held_until(s, i) != 0 && s.wdt_count >= held_until(s, i);
    reveal_with_fuel(TimgState::wdt_threshold, 5);
    assert forall|i: int| 0 <= i < 4 implies #[trigger] s.wdt_fires(i) == due(i) by {}
    assert forall|i: int| 0 <= i < 4 implies #[trigger] s.wdt_action(i) == stage_action(s, i) by {}
    let t = s.wdt_staged(4);
    if exists|i: int| 0 <= i < 4 && #[trigger] due(i) && stage_action(s, i) == 1 {
        let i = choose|i: int| 0 <= i < 4 && #[trigger] due(i) && stage_action(s, i) == 1;
        assert(s.wdt_fires(i) && s.wdt_action(i) == 1);
    }
    if exists|i: int| 0 <= i < 4 && #[trigger] due(i) && stage_action(s, i) >= 2 {
        let i = choose|i: int| 0 <= i < 4 && #[trigger] due(i) && stage_action(s, i) >= 2;
        assert(s.wdt_fires(i) && s.wdt_action(i) >= 2);
    }
    if forall|i: int| 0 <= i < 4 && #[trigger] due(i) ==> stage_action(s, i) != 1 {
        assert forall|i: int| 0 <= i < 4 && #[trigger] s.wdt_fires(i) implies s.wdt_action(i) != 1 by {
            assert(due(i));
        }
    }
    if t.wdt_reset && !s.wdt_reset {
        let i = choose|i: int| 0 <= i < 4 && #[trigger] s.wdt_fires(i) && s.wdt_action(i) >= 2;
        assert(due(i) && stage_action(s, i) >= 2);
    }
}

/// The watchdog counts one for every so many cycles as its prescaler says (0 counts as
/// 1), from a restart when it is enabled.
pub proof fn law_watchdog_counts(s: TimgState)
    requires
        s.wf(),
        s.wdt_clk_acc < u64::MAX,
        s.wdt_count < u64::MAX,
    ensures
        ({
            let p = if s.regs[19] / 0x1_0000 == 0 {
                1
            } else {
                s.regs[19] as int / 0x1_0000
            };
            let t = s.wdt_cycle();
            &&& t.wdt_running
            &&& !s.wdt_running ==> t.wdt_count == (if p == 1 {
                1int
            } else {
                0
            })
            &&& s.wdt_running && s.wdt_clk_acc + 1 < p ==> t.wdt_count == s.wdt_count
                && t.wdt_clk_acc == s.wdt_clk_acc + 1
            &&& s.wdt_running && s.wdt_clk_acc + 1 >= p ==> t.wdt_count == s.wdt_count + 1
                && t.wdt_clk_acc == s.wdt_clk_acc + 1 - p
        }),
{
    crate::bits::lemma_fields(s.regs[19]);
}

/// Clock calibration: so many cycles of the slow clock last the programmed number times
/// the ratio of the clocks (267 for the RC clock, 1280 for its divided form, 1221 for the
/// crystal), as far as the result field holds it.
pub proof fn law_calibration_result(s: TimgState, v: u32)
    requires
        s.wf(),
        has_bit(v, 31),
    ensures
        ({
            let cycles = (v / 0x1_0000) % 0x8000;
            let sel = (v / 0x2000) % 4;
            let ratio = if sel == 0 {
                267int
            } else if sel == 1 {
                1280
            } else {
                1221
            };
            let result = if cycles * ratio < 0x1FF_FFFF {
                cycles * ratio
            } else {
                0x1FF_FFFF
            };
            s.written(0x68, v).read(0x6C) == result * 0x80 + 1
        }),
{
    crate::bits::lemma_bit_differs(v, 0, 31);
    crate::bits::lemma_fields(v);
    crate::timg::law_calibration_completes(s, v);
    let value = TimgState::cali_value(v);
    crate::bits::lemma_fields(value as u32);
}

/// The system counters: while its unit works, each cycle moves a counter by one, and it
/// starts again at 0 after 52 bits.
pub proof fn law_units_count(s: SystimerState, u: int)
    requires
        s.wf(),
        u == 0 || u == 1,
        s.units[u].counter < 0x10_0000_0000_0000,
    ensures
        has_bit(s.regs[0], (30 - u) as u32) ==> s.cycle().units[u].counter == (s.units[u].counter + 1)
            % 0x10_0000_0000_0000,
        !has_bit(s.regs[0], (30 - u) as u32) ==> s.cycle().units[u] == s.units[u],
{
    let conf = s.regs[0];
    crate::bits::lemma_bit_differs(conf, 0, 30);
    crate::bits::lemma_bit_differs(conf, 0, 29);
    crate::bits::lemma_wide(0, 0, s.units[u].counter.wrapping_add(1));
}

/// One-shot alarm `n`: armed and enabled, it is raised exactly when the counter that it
/// watches has reached its target, and is then no longer armed. Neither an alarm that is
/// not armed nor one that is not enabled is ever raised.
pub proof fn law_oneshot_is_exact(s: SystimerState, n: int)
    requires
        s.wf(),
        0 <= n < 3,
        !has_bit(s.regs[13 + n], 30),
        !has_bit(s.regs[26], n as u32),
    ensures
        ({
            let unit = (s.regs[13 + n] / 0x8000_0000) as int;
            let target = s.regs[8 + 2 * n] + 0x1_0000_0000 * s.regs[7 + 2 * n];
            let enabled = has_bit(s.regs[0], (24 - n) as u32);
            let t = s.checked(n);
            let fires = s.armed[n] && enabled && s.units[unit].counter >= target;
            &&& has_bit(t.regs[26], n as u32) == fires
            &&& t.armed[n] == (s.armed[n] && !fires)
            &&& forall|k: int| 0 <= k < 3 && k != n ==> #[trigger] t.armed[k] == s.armed[k]
            &&& t.units == s.units
        }),
{
    crate::bits::lemma_constants();
    let c = s.regs[13 + n];
    crate::bits::lemma_fields(c);
    crate::bits::lemma_wide(s.regs[8 + 2 * n], s.regs[7 + 2 * n], 0);
    crate::bits::lemma_bit_differs(c, 0, 30);
    crate::bits::lemma_bit_differs(s.regs[0], 0, (24 - n) as u32);
    crate::bits::lemma_bit_differs(s.regs[26], 0, n as u32);
    crate::bits::lemma_set_bit(s.regs[26], n as u32, n as u32);
}

/// A count that is loaded is counted from, and a snapshot shows the count in its low and
/// high words.
pub proof fn law_load_and_snapshot(s: SystimerState, v: u32)
    requires
        s.wf(),
        s.units[0].counter < 0x10_0000_0000_0000,
        s.units[1].counter < 0x10_0000_0000_0000,
    ensures
        s.written(0x5C, v).units[0].counter == s.regs[4] + 0x1_0000_0000 * s.regs[3],
        s.written(0x60, v).units[1].counter == s.regs[6] + 0x1_0000_0000 * s.regs[5],
        has_bit(v, 30) ==> {
            &&& s.written(4, v).read(0x44) + 0x1_0000_0000 * s.written(4, v).read(0x40)
                == s.units[0].counter
            &&& s.written(8, v).read(0x4C) + 0x1_0000_0000 * s.written(8, v).read(0x48)
                == s.units[1].counter
        },
{
    crate::bits::lemma_bit_differs(v, 0, 30);
    crate::bits::lemma_wide(s.regs[4], s.regs[3], s.units[0].counter);
    crate::bits::lemma_wide(s.regs[6], s.regs[5], s.units[1].counter);
}

} // verus!
