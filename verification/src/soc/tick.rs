//! Time: what one cycle does to the clocked blocks.
//!
//! A block whose clock gate is closed stands still. The radio and the PLL run
//! on clocks of their own.
//!
//! [`Soc::tick_timers`] runs the blocks here. Where blocks outside run in the same
//! cycles, the steps of a tick are taken one by one: [`Soc::begin_tick`], for each
//! cycle the steps `core_cycle`, `uart_cycle`, `spi2_cycle`, `spi3_cycle` and
//! `usb_cycle` with the outside blocks in between, and [`Soc::end_tick`].

use super::{EmuEvent, Soc, SocState, EVT_SPI_XFER};
use crate::memory::MemState;
use crate::spi::SpiState;
use crate::usb_otg::OtgState;
use vstd::prelude::*;

verus! {

broadcast use crate::soc::sizes::lemma_sized;

impl SocState {
    /// One cycle of the coprocessor and the timers.
    pub open spec fn core_cycle(self) -> SocState {
        SocState {
            ulp: if self.ulp.is_running() {
                crate::ulp::stepped(self.ulp, self.mem.rtc_slow)
            } else {
                self.ulp
            },
            mem: if self.ulp.is_running() {
                MemState {
                    rtc_slow: crate::ulp::stepped_mem(self.ulp, self.mem.rtc_slow),
                    ..self.mem
                }
            } else {
                self.mem
            },
            timg0: if self.clk_on(false, 13) {
                self.timg0.ticked(1)
            } else {
                self.timg0
            },
            timg1: if self.clk_on(false, 15) {
                self.timg1.ticked(1)
            } else {
                self.timg1
            },
            systimer: if self.clk_on(false, 29) {
                self.systimer.ticked(1)
            } else {
                self.systimer
            },
            ..self
        }
    }

    /// One cycle of the UARTs. Each takes its clear-to-send level from the pad
    /// routed to it; an unrouted input reads high.
    pub open spec fn uart_cycle(self) -> SocState {
        let rb = self.readback();
        let u0 = self.uart0.with_cts(self.pads.input(13, rb, 1));
        let u1 = self.uart1.with_cts(self.pads.input(16, rb, 1));
        let u2 = self.uart2.with_cts(self.pads.input(19, rb, 1));
        SocState {
            uart0: if self.clk_on(false, 2) {
                u0.ticked(1)
            } else {
                u0
            },
            uart1: if self.clk_on(false, 5) {
                u1.ticked(1)
            } else {
                u1
            },
            uart2: if self.clk_on(true, 9) {
                u2.ticked(1)
            } else {
                u2
            },
            ..self.after_readback()
        }
    }

    /// One cycle of the first SPI bus; a finished transfer is reported.
    pub open spec fn spi2_cycle(self) -> SocState {
        let spi = if self.clk_on(false, 6) {
            self.spi2.ticked(1)
        } else {
            self.spi2
        };
        let s = SocState { spi2: SpiState { last_tx: None, ..spi }, ..self };
        match spi.last_tx {
            Some(tx) => SocState {
                spi2_tx: tx,
                events: s.events.push(EmuEvent { kind: EVT_SPI_XFER, a: 0, b: tx.len() as u32 }),
                ..s
            },
            None => s,
        }
    }

    /// One cycle of the second SPI bus; a finished transfer is reported.
    pub open spec fn spi3_cycle(self) -> SocState {
        let spi = if self.clk_on(false, 16) {
            self.spi3.ticked(1)
        } else {
            self.spi3
        };
        let s = SocState { spi3: SpiState { last_tx: None, ..spi }, ..self };
        match spi.last_tx {
            Some(tx) => SocState {
                spi3_tx: tx,
                events: s.events.push(EmuEvent { kind: EVT_SPI_XFER, a: 1, b: tx.len() as u32 }),
                ..s
            },
            None => s,
        }
    }

    /// The UART that the UHCI serves has no received byte; so has no UART.
    pub open spec fn uhci_dry(self) -> bool {
        match self.uhci.uart_sel() {
            Some(n) => if n == 0 {
                self.uart0.rx.len() == 0
            } else if n == 1 {
                self.uart1.rx.len() == 0
            } else {
                self.uart2.rx.len() == 0
            },
            None => true,
        }
    }

    /// One cycle of the USB blocks and the UHCI.
    pub open spec fn usb_cycle(self) -> SocState {
        SocState {
            usb: if self.clk_on(true, 10) {
                self.usb.polled()
            } else {
                self.usb
            },
            otg: if self.clk_on(false, 23) {
                OtgState { sof: self.otg.sof.wrapping_add(1), ..self.otg }
            } else {
                self.otg
            },
            uhci: if self.uhci.clk_on() && self.clk_on(false, 8) {
                self.uhci.idle_ticked(self.uhci_dry())
            } else {
                self.uhci
            },
            ..self
        }
    }

    /// One cycle.
    pub open spec fn cycled(self) -> SocState {
        self.core_cycle().uart_cycle().spi2_cycle().spi3_cycle().usb_cycle()
    }

    /// `n` cycles.
    pub open spec fn cycles(self, n: nat) -> SocState
        decreases n,
    {
        if n == 0 {
            self
        } else {
            self.cycles((n - 1) as nat).cycled()
        }
    }

    /// The chip at the start of a tick: what was cached of pads and interrupts is
    /// to be taken anew.
    pub open spec fn tick_begun(self) -> SocState {
        SocState { src_valid: false, rb_valid: false, ..self }
    }

    /// The chip at the end of a tick of `n` cycles: the radio and the PLL count.
    pub open spec fn tick_ended(self, n: u64) -> SocState {
        SocState { pll: self.pll.ticked(n), wifi: self.wifi.ticked(n), ..self }
    }

    /// The chip after a tick of `n` cycles.
    pub open spec fn ticked(self, n: u64) -> SocState {
        self.tick_begun().cycles(n as nat).tick_ended(n)
    }
}

impl Soc {
    /// Begin a tick.
    pub fn begin_tick(&mut self)
        requires
            old(self)@.wf(),
        ensures
            final(self)@ == old(self)@.tick_begun(),
            final(self)@.wf(),
    {
        reveal(SocState::wf);
        self.src_valid = false;
        self.rb_valid = false;
        assert(self@ =~= old(self)@.tick_begun());
    }

    /// End a tick of `cycles` cycles.
    pub fn end_tick(&mut self, cycles: u64)
        requires
            old(self)@.wf(),
        ensures
            final(self)@ == old(self)@.tick_ended(cycles),
            final(self)@.wf(),
    {
        reveal(SocState::wf);
        self.pll.tick(cycles);
        self.wifi.tick(cycles);
        assert(self@ =~= old(self)@.tick_ended(cycles));
    }

    /// One cycle of the coprocessor and the timers.
    pub fn core_cycle(&mut self)
        requires
            old(self)@.wf(),
        ensures
            final(self)@ == old(self)@.core_cycle(),
            final(self)@.wf(),
    {
        reveal(SocState::wf);
        if self.ulp.is_running() {
            proof {
                crate::ulp::law_step_keeps_shape(self@.ulp, self@.mem.rtc_slow);
            }
            self.ulp.step(self.mem.rtc_slow_mut());
        }
        if self.clk_on(false, 13) {
            self.timg0.tick(1);
        }
        if self.clk_on(false, 15) {
            self.timg1.tick(1);
        }
        if self.clk_on(false, 29) {
            self.systimer.tick(1);
        }
        assert(self@ =~= old(self)@.core_cycle());
    }

    /// One cycle of the UARTs.
    pub fn uart_cycle(&mut self)
        requires
            old(self)@.wf(),
        ensures
            final(self)@ == old(self)@.uart_cycle(),
            final(self)@.wf(),
    {
        reveal(SocState::wf);
        let rb: u32 = self.gpio_in_readback();
        self.uart0.set_cts(self.pads.input(13, rb, 1));
        self.uart1.set_cts(self.pads.input(16, rb, 1));
        self.uart2.set_cts(self.pads.input(19, rb, 1));
        if self.clk_on(false, 2) {
            self.uart0.tick(1);
        }
        if self.clk_on(false, 5) {
            self.uart1.tick(1);
        }
        if self.clk_on(true, 9) {
            self.uart2.tick(1);
        }
        assert(self@ =~= old(self)@.uart_cycle());
    }

    /// One cycle of the first SPI bus.
    pub fn spi2_cycle(&mut self)
        requires
            old(self)@.wf(),
        ensures
            final(self)@ == old(self)@.spi2_cycle(),
            final(self)@.wf(),
    {
        reveal(SocState::wf);
        if self.clk_on(false, 6) {
            self.spi2.tick(1);
        }
        match self.spi2.take_last_tx() {
            Some(tx) => {
                self.events.push(EmuEvent { kind: EVT_SPI_XFER, a: 0, b: tx.len() as u32 });
                self.spi2_tx = tx;
            },
            None => {},
        }
        assert(self@ =~= old(self)@.spi2_cycle());
    }

    /// One cycle of the second SPI bus.
    pub fn spi3_cycle(&mut self)
        requires
            old(self)@.wf(),
        ensures
            final(self)@ == old(self)@.spi3_cycle(),
            final(self)@.wf(),
    {
        reveal(SocState::wf);
        if self.clk_on(false, 16) {
            self.spi3.tick(1);
        }
        match self.spi3.take_last_tx() {
            Some(tx) => {
                self.events.push(EmuEvent { kind: EVT_SPI_XFER, a: 1, b: tx.len() as u32 });
                self.spi3_tx = tx;
            },
            None => {},
        }
        assert(self@ =~= old(self)@.spi3_cycle());
    }

    fn uhci_dry(&self) -> (r: bool)
        ensures
            r == self@.uhci_dry(),
    {
        match self.uhci.uart_sel() {
            Some(n) => if n == 0 {
                !self.uart0.rx_pending()
            } else if n == 1 {
                !self.uart1.rx_pending()
            } else {
                !self.uart2.rx_pending()
            },
            None => true,
        }
    }

    /// One cycle of the USB blocks and the UHCI.
    pub fn usb_cycle(&mut self)
        requires
            old(self)@.wf(),
        ensures
            final(self)@ == old(self)@.usb_cycle(),
            final(self)@.wf(),
    {
        reveal(SocState::wf);
        if self.clk_on(true, 10) {
            self.usb.tick();
        }
        if self.clk_on(false, 23) {
            self.otg.tick();
        }
        if self.uhci.clk_on() && self.clk_on(false, 8) {
            let dry = self.uhci_dry();
            self.uhci.tick_rx_idle(dry);
        }
        assert(self@ =~= old(self)@.usb_cycle());
    }

    /// Run the blocks for `cycles` cycles.
    pub fn tick_timers(&mut self, cycles: u64)
        requires
            old(self)@.wf(),
        ensures
            final(self)@ == old(self)@.ticked(cycles),
            final(self)@.wf(),
    {
        self.begin_tick();
        let ghost start = self@;
        let mut i: u64 = 0;
        while i < cycles
            invariant
                i <= cycles,
                self@ == start.cycles(i as nat),
                self@.wf(),
            decreases cycles - i,
        {
            self.core_cycle();
            self.uart_cycle();
            self.spi2_cycle();
            self.spi3_cycle();
            self.usb_cycle();
            i = i + 1;
        }
        self.end_tick(cycles);
    }
}

/// An SPI bus whose clock gate is closed stands still: a transfer under way goes no
/// further. The report of a finished one is still taken from it.
pub open spec fn spi_stands(before: SpiState, after: SpiState) -> bool {
    after == (SpiState { last_tx: after.last_tx, ..before }) && (after.last_tx == before.last_tx
        || after.last_tx is None)
}

/// Clear-to-send level that a tick finds at the pad routed to `sig`.
pub open spec fn cts_level(s: SocState, sig: u32) -> u32 {
    let start = s.tick_begun();
    s.pads.input(sig, start.core_cycle().readback(), 1)
}

/// A block whose clock gate is closed stands still for any number of cycles. Of a
/// UART only the clear-to-send input goes on, which is not clocked: it follows its
/// pad once in a tick.
pub proof fn law_gated_blocks_stand_still(s: SocState, n: u64)
    ensures
        !s.clk_on(false, 13) ==> s.ticked(n).timg0 == s.timg0,
        !s.clk_on(false, 15) ==> s.ticked(n).timg1 == s.timg1,
        !s.clk_on(false, 29) ==> s.ticked(n).systimer == s.systimer,
        !s.clk_on(true, 10) ==> s.ticked(n).usb == s.usb,
        !s.clk_on(false, 23) ==> s.ticked(n).otg == s.otg,
        !s.clk_on(false, 8) ==> s.ticked(n).uhci == s.uhci,
        !s.clk_on(false, 2) && n > 0 ==> s.ticked(n).uart0 == s.uart0.with_cts(cts_level(s, 13)),
        !s.clk_on(false, 5) && n > 0 ==> s.ticked(n).uart1 == s.uart1.with_cts(cts_level(s, 16)),
        !s.clk_on(true, 9) && n > 0 ==> s.ticked(n).uart2 == s.uart2.with_cts(cts_level(s, 19)),
        !s.clk_on(false, 6) ==> spi_stands(s.spi2, s.ticked(n).spi2),
        !s.clk_on(false, 16) ==> spi_stands(s.spi3, s.ticked(n).spi3),
        !s.ulp.is_running() ==> s.ticked(n).ulp == s.ulp && s.ticked(n).mem == s.mem,
{
    lemma_gated(s.tick_begun(), n as nat);
    lemma_gated_buses(s.tick_begun(), n as nat);
    if n > 0 {
        lemma_gated_uarts(s, n as nat);
    }
}

proof fn lemma_gated(s: SocState, n: nat)
    ensures
        s.cycles(n).clk_en0 == s.clk_en0,
        s.cycles(n).clk_en1 == s.clk_en1,
        !s.clk_on(false, 13) ==> s.cycles(n).timg0 == s.timg0,
        !s.clk_on(false, 15) ==> s.cycles(n).timg1 == s.timg1,
        !s.clk_on(false, 29) ==> s.cycles(n).systimer == s.systimer,
        !s.clk_on(true, 10) ==> s.cycles(n).usb == s.usb,
        !s.clk_on(false, 23) ==> s.cycles(n).otg == s.otg,
        !s.clk_on(false, 8) ==> s.cycles(n).uhci == s.uhci,
        !s.ulp.is_running() ==> s.cycles(n).ulp == s.ulp && s.cycles(n).mem == s.mem,
    decreases n,
{
    if n > 0 {
        lemma_gated(s, (n - 1) as nat);
    }
}

proof fn lemma_gated_uarts(s: SocState, n: nat)
    requires
        n > 0,
    ensures
        ({
            let start = s.tick_begun();
            let t = start.cycles(n);
            &&& t.clk_en0 == s.clk_en0
            &&& t.clk_en1 == s.clk_en1
            &&& t.pads == s.pads
            &&& t.rb_valid
            &&& t.cached_rb == start.core_cycle().readback()
            &&& !s.clk_on(false, 2) ==> t.uart0 == s.uart0.with_cts(cts_level(s, 13))
            &&& !s.clk_on(false, 5) ==> t.uart1 == s.uart1.with_cts(cts_level(s, 16))
            &&& !s.clk_on(true, 9) ==> t.uart2 == s.uart2.with_cts(cts_level(s, 19))
        }),
    decreases n,
{
    let start = s.tick_begun();
    if n > 1 {
        lemma_gated_uarts(s, (n - 1) as nat);
        crate::uart::law_cts_settles(s.uart0, cts_level(s, 13));
        crate::uart::law_cts_settles(s.uart1, cts_level(s, 16));
        crate::uart::law_cts_settles(s.uart2, cts_level(s, 19));
    } else {
        assert(start.cycles(0) == start);
    }
    assert(start.cycles(n) == start.cycles((n - 1) as nat).cycled());
}

proof fn lemma_gated_buses(s: SocState, n: nat)
    ensures
        s.cycles(n).clk_en0 == s.clk_en0,
        s.cycles(n).clk_en1 == s.clk_en1,
        !s.clk_on(false, 6) ==> spi_stands(s.spi2, s.cycles(n).spi2),
        !s.clk_on(false, 16) ==> spi_stands(s.spi3, s.cycles(n).spi3),
    decreases n,
{
    if n > 0 {
        lemma_gated_buses(s, (n - 1) as nat);
    }
}

/// The clocked blocks that no pad level reaches stand alike in both chips.
pub open spec fn same_clocked(s: SocState, t: SocState) -> bool {
    &&& s.clk_en0 == t.clk_en0
    &&& s.clk_en1 == t.clk_en1
    &&& s.ulp == t.ulp
    &&& s.mem == t.mem
    &&& s.timg0 == t.timg0
    &&& s.timg1 == t.timg1
    &&& s.systimer == t.systimer
    &&& s.spi2 == t.spi2
    &&& s.spi3 == t.spi3
    &&& s.spi2_tx == t.spi2_tx
    &&& s.spi3_tx == t.spi3_tx
    &&& s.events == t.events
    &&& s.usb == t.usb
    &&& s.otg == t.otg
}

/// Time adds up: two ticks in a row move the memories and the clocked blocks as
/// one tick of both lengths does. The UARTs are left out, and the UHCI with
/// them: their clear-to-send levels are taken once in a tick.
#[verifier::spinoff_prover]
#[verifier::rlimit(60)]
pub proof fn law_time_adds_up(s: SocState, a: u64, b: u64)
    requires
        a + b <= u64::MAX,
    ensures
        same_clocked(s.ticked(a).ticked(b), s.ticked((a + b) as u64)),
        s.ticked(a).ticked(b).pll == s.ticked((a + b) as u64).pll,
        s.ticked(a).ticked(b).wifi == s.ticked((a + b) as u64).wifi,
{
    let start = s.tick_begun();
    let again = s.ticked(a).tick_begun();
    lemma_cycles_add(start, a as nat, b as nat);
    lemma_same_cycles(again, start.cycles(a as nat), b as nat);
    lemma_own_clocks(start, a as nat);
    lemma_own_clocks(start, (a + b) as nat);
    lemma_own_clocks(again, b as nat);
}

proof fn lemma_cycles_add(s: SocState, a: nat, b: nat)
    ensures
        s.cycles(a).cycles(b) == s.cycles(a + b),
    decreases b,
{
    if b > 0 {
        lemma_cycles_add(s, a, (b - 1) as nat);
    }
}

/// Cycles leave the radio and the PLL alone.
proof fn lemma_own_clocks(s: SocState, n: nat)
    ensures
        s.cycles(n).pll == s.pll,
        s.cycles(n).wifi == s.wifi,
    decreases n,
{
    if n > 0 {
        lemma_own_clocks(s, (n - 1) as nat);
    }
}

proof fn lemma_same_core(s: SocState, t: SocState)
    requires
        same_clocked(s, t),
    ensures
        same_clocked(s.core_cycle(), t.core_cycle()),
{
}

proof fn lemma_same_serial(s: SocState, t: SocState)
    requires
        same_clocked(s, t),
    ensures
        same_clocked(s.uart_cycle(), t.uart_cycle()),
        same_clocked(s.usb_cycle(), t.usb_cycle()),
{
}

proof fn lemma_same_spi(s: SocState, t: SocState)
    requires
        same_clocked(s, t),
    ensures
        same_clocked(s.spi2_cycle(), t.spi2_cycle()),
        same_clocked(s.spi3_cycle(), t.spi3_cycle()),
{
}

/// Chips alike in their clocked blocks stay so.
proof fn lemma_same_cycles(s: SocState, t: SocState, n: nat)
    requires
        same_clocked(s, t),
    ensures
        same_clocked(s.cycles(n), t.cycles(n)),
    decreases n,
{
    if n > 0 {
        lemma_same_cycles(s, t, (n - 1) as nat);
        lemma_same_cycle(s.cycles((n - 1) as nat), t.cycles((n - 1) as nat));
    }
}

proof fn lemma_same_cycle(s: SocState, t: SocState)
    requires
        same_clocked(s, t),
    ensures
        same_clocked(s.cycled(), t.cycled()),
{
    let (s1, t1) = (s.core_cycle(), t.core_cycle());
    lemma_same_core(s, t);
    let (s2, t2) = (s1.uart_cycle(), t1.uart_cycle());
    lemma_same_serial(s1, t1);
    let (s3, t3) = (s2.spi2_cycle(), t2.spi2_cycle());
    lemma_same_spi(s2, t2);
    lemma_same_spi(s3, t3);
    lemma_same_serial(s3.spi3_cycle(), t3.spi3_cycle());
}

/// Time alone changes no memory but the coprocessor's: the other memories, the
/// page table and the clock gates stay as they are.
pub proof fn law_time_keeps_memory(s: SocState, n: u64)
    ensures
        s.ticked(n).mem == (MemState { rtc_slow: s.ticked(n).mem.rtc_slow, ..s.mem }),
        !s.ulp.is_running() ==> s.ticked(n).mem == s.mem && s.ticked(n).ulp == s.ulp,
        s.ticked(n).clk_en0 == s.clk_en0,
        s.ticked(n).clk_en1 == s.clk_en1,
{
    let t = s.tick_begun();
    lemma_gated(t, n as nat);
    lemma_memory(t, n as nat);
}

proof fn lemma_memory(s: SocState, n: nat)
    ensures
        s.cycles(n).mem == (MemState { rtc_slow: s.cycles(n).mem.rtc_slow, ..s.mem }),
        !s.ulp.is_running() ==> s.cycles(n).mem == s.mem && s.cycles(n).ulp == s.ulp,
    decreases n,
{
    if n > 0 {
        lemma_memory(s, (n - 1) as nat);
    }
}

} // verus!
