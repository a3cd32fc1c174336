//! UHCI: the DMA bridge in front of the UARTs.
//!
//! The bridge selects one UART and moves DMA bytes through it. With separators
//! enabled, packets are SLIP-framed on the line: wrapped in separator bytes, with
//! the separator and the escape byte escaped in the data. Otherwise bytes pass
//! through untouched. The receiving side drops separators and reassembles escape
//! pairs, also across chunk boundaries.
//!
//! Reception that has started and then stays dry for [`RX_HUNG_TICKS`] ticks
//! raises the hung interrupt. With head capture armed, the first two payload
//! bytes of a transfer go to the head register.

use vstd::prelude::*;

verus! {

pub const UHCI0_BASE: u32 = 0x6001_4000;

/// Interrupt matrix source.
pub const UHCI0_INTR_SOURCE: u32 = 14;

pub const CONF_RX_RST: u32 = 1 << 1;

pub const CONF_UART0_CE: u32 = 1 << 2;

pub const CONF_UART1_CE: u32 = 1 << 3;

pub const CONF_UART2_CE: u32 = 1 << 4;

pub const CONF_SEPER_EN: u32 = 1 << 5;

pub const CONF_HEAD_EN: u32 = 1 << 6;

pub const CONF_CLK_EN: u32 = 1 << 11;

pub const CONF1_SAVE_HEAD: u32 = 1 << 3;

pub const CONF0_OFF: u32 = 0x00;

pub const INT_RAW_OFF: u32 = 0x04;

pub const INT_ST_OFF: u32 = 0x08;

pub const INT_ENA_OFF: u32 = 0x0C;

pub const INT_CLR_OFF: u32 = 0x10;

pub const CONF1_OFF: u32 = 0x18;

/// Separator in bits `[7:0]`, escape bytes in `[15:8]` and `[23:16]`.
pub const ESCAPE_CONF_OFF: u32 = 0x24;

pub const RX_HEAD_OFF: u32 = 0x30;

/// Second byte of an escaped escape byte.
pub const ESC_SELF_SECOND: u8 = 0xDD;

pub const INT_RX_START: u32 = 1;

pub const INT_TX_START: u32 = 1 << 1;

pub const INT_RX_HUNG: u32 = 1 << 2;

/// Idle ticks after which a started reception counts as hung.
pub const RX_HUNG_TICKS: u32 = 1024;

/// SLIP characters: separator, escape, second byte of an escaped separator.
pub struct SlipChars {
    pub seper: u8,
    pub esc0: u8,
    pub esc1: u8,
}

impl SlipChars {
    /// How a data byte is sent.
    pub open spec fn escaped(self, b: u8) -> Seq<u8> {
        if b == self.seper {
            seq![self.esc0, self.esc1]
        } else if b == self.esc0 {
            seq![self.esc0, ESC_SELF_SECOND]
        } else {
            seq![b]
        }
    }

    /// How a run of data bytes is sent.
    pub open spec fn escaped_all(self, data: Seq<u8>) -> Seq<u8>
        decreases data.len(),
    {
        if data.len() == 0 {
            Seq::empty()
        } else {
            self.escaped_all(data.drop_last()) + self.escaped(data.last())
        }
    }

    /// A framed packet.
    pub open spec fn framed(self, data: Seq<u8>) -> Seq<u8> {
        seq![self.seper] + self.escaped_all(data) + seq![self.seper]
    }

    /// Data bytes that line byte `b` completes, after an escape byte if `pend`.
    /// An escape byte that opens no escape pair stands for itself.
    pub open spec fn yields(self, pend: bool, b: u8) -> Seq<u8> {
        if pend {
            if b == self.esc1 {
                seq![self.seper]
            } else if b == ESC_SELF_SECOND || b == self.esc0 || b == self.seper {
                seq![self.esc0]
            } else {
                seq![self.esc0, b]
            }
        } else if b == self.esc0 || b == self.seper {
            Seq::empty()
        } else {
            seq![b]
        }
    }

    /// An escape byte is pending after a run of line bytes.
    pub open spec fn pending(self, pend: bool, line: Seq<u8>) -> bool
        decreases line.len(),
    {
        if line.len() == 0 {
            pend
        } else {
            !self.pending(pend, line.drop_last()) && line.last() == self.esc0
        }
    }

    /// Data bytes of a run of line bytes.
    pub open spec fn deframed(self, pend: bool, line: Seq<u8>) -> Seq<u8>
        decreases line.len(),
    {
        if line.len() == 0 {
            Seq::empty()
        } else {
            self.deframed(pend, line.drop_last()) + self.yields(
                self.pending(pend, line.drop_last()),
                line.last(),
            )
        }
    }

    /// The characters can be told apart.
    pub open spec fn distinct(self) -> bool {
        self.seper != self.esc0 && self.esc1 != ESC_SELF_SECOND
    }
}

/// The bridge.
pub struct UhciState {
    pub conf0: u32,
    pub int_raw: u32,
    pub int_ena: u32,
    pub esc_conf: u32,
    pub conf1: u32,
    pub rx_head: u32,
    /// Idle ticks of a started reception.
    pub hung_count: u32,
    /// The last received byte was an escape byte.
    pub dec_pend: bool,
}

impl UhciState {
    pub open spec fn reset() -> Self {
        UhciState {
            conf0: 0,
            int_raw: 0,
            int_ena: 0,
            esc_conf: 0xDC_DBC0,
            conf1: 0,
            rx_head: 0,
            hung_count: 0,
            dec_pend: false,
        }
    }

    pub open spec fn clk_on(self) -> bool {
        self.conf0 & CONF_CLK_EN != 0
    }

    /// The lowest UART whose enable is set.
    pub open spec fn uart_sel(self) -> Option<usize> {
        if self.conf0 & CONF_UART0_CE != 0 {
            Some(0)
        } else if self.conf0 & CONF_UART1_CE != 0 {
            Some(1)
        } else if self.conf0 & CONF_UART2_CE != 0 {
            Some(2)
        } else {
            None
        }
    }

    pub open spec fn framing(self) -> bool {
        self.conf0 & CONF_SEPER_EN != 0
    }

    pub open spec fn chars(self) -> SlipChars {
        SlipChars {
            seper: (self.esc_conf & 0xFF) as u8,
            esc0: ((self.esc_conf >> 8) & 0xFF) as u8,
            esc1: ((self.esc_conf >> 16) & 0xFF) as u8,
        }
    }

    /// Line bytes for a run of data bytes.
    pub open spec fn encoded(self, data: Seq<u8>) -> Seq<u8> {
        if self.framing() {
            self.chars().framed(data)
        } else {
            data
        }
    }

    /// Data bytes of a run of line bytes.
    pub open spec fn decoded(self, line: Seq<u8>) -> Seq<u8> {
        if self.framing() {
            self.chars().deframed(self.dec_pend, line)
        } else {
            line
        }
    }

    /// The bridge after decoding a run of line bytes.
    pub open spec fn after_decode(self, line: Seq<u8>) -> Self {
        if self.framing() {
            UhciState { dec_pend: self.chars().pending(self.dec_pend, line), ..self }
        } else {
            self
        }
    }

    /// The bridge after a receive start.
    pub open spec fn rx_started(self) -> Self {
        UhciState { int_raw: self.int_raw | INT_RX_START, hung_count: 0, ..self }
    }

    /// The bridge after a receive watchdog tick.
    pub open spec fn idle_ticked(self, rx_empty: bool) -> Self {
        if self.int_raw & INT_RX_START == 0 || !rx_empty {
            UhciState { hung_count: 0, ..self }
        } else {
            let n = self.hung_count.wrapping_add(1);
            UhciState {
                hung_count: n,
                int_raw: if n >= RX_HUNG_TICKS {
                    self.int_raw | INT_RX_HUNG
                } else {
                    self.int_raw
                },
                ..self
            }
        }
    }

    pub open spec fn head_capture(self) -> bool {
        self.conf0 & CONF_HEAD_EN != 0 && self.conf1 & CONF1_SAVE_HEAD != 0
    }

    pub open spec fn read(self, off: u32) -> u32 {
        if off == CONF0_OFF {
            self.conf0
        } else if off == CONF1_OFF {
            self.conf1
        } else if off == ESCAPE_CONF_OFF {
            self.esc_conf
        } else if off == RX_HEAD_OFF {
            self.rx_head
        } else if off == INT_RAW_OFF {
            self.int_raw
        } else if off == INT_ST_OFF {
            self.int_raw & self.int_ena
        } else if off == INT_ENA_OFF {
            self.int_ena
        } else {
            0
        }
    }

    pub open spec fn written(self, off: u32, value: u32) -> Self {
        if off == CONF0_OFF {
            UhciState {
                conf0: value,
                dec_pend: self.dec_pend && value & CONF_RX_RST == 0,
                ..self
            }
        } else if off == CONF1_OFF {
            UhciState { conf1: value, ..self }
        } else if off == ESCAPE_CONF_OFF {
            UhciState { esc_conf: value, ..self }
        } else if off == INT_ENA_OFF {
            UhciState { int_ena: value, ..self }
        } else if off == INT_CLR_OFF {
            UhciState { int_raw: self.int_raw & !value, ..self }
        } else {
            self
        }
    }
}

/// The UHCI bridge.
pub struct Uhci {
    conf0: u32,
    int_raw: u32,
    int_ena: u32,
    esc_conf: u32,
    conf1: u32,
    rx_head: u32,
    hung_count: u32,
    dec_pend: bool,
}

impl View for Uhci {
    type V = UhciState;

    closed spec fn view(&self) -> UhciState {
        UhciState {
            conf0: self.conf0,
            int_raw: self.int_raw,
            int_ena: self.int_ena,
            esc_conf: self.esc_conf,
            conf1: self.conf1,
            rx_head: self.rx_head,
            hung_count: self.hung_count,
            dec_pend: self.dec_pend,
        }
    }
}

impl Default for Uhci {
    fn default() -> (u: Self)
        ensures
            u@ == UhciState::reset(),
    {
        Self::new()
    }
}

/// Copy of a byte string.
fn copy_bytes(bytes: &[u8]) -> (v: Vec<u8>)
    ensures
        v@ == bytes@,
{
    let mut v: Vec<u8> = Vec::new();
    v.extend_from_slice(bytes);
    assert(v@ =~= bytes@);
    v
}

impl Uhci {
    pub fn new() -> (u: Self)
        ensures
            u@ == UhciState::reset(),
    {
        Uhci {
            conf0: 0,
            int_raw: 0,
            int_ena: 0,
            esc_conf: 0xDC_DBC0,
            conf1: 0,
            rx_head: 0,
            hung_count: 0,
            dec_pend: false,
        }
    }

    /// Clock enabled.
    pub fn clk_on(&self) -> (r: bool)
        ensures
            r == self@.clk_on(),
    {
        self.conf0 & CONF_CLK_EN != 0
    }

    /// Selected UART.
    pub fn uart_sel(&self) -> (r: Option<usize>)
        ensures
            r == self@.uart_sel(),
    {
        if self.conf0 & CONF_UART0_CE != 0 {
            Some(0)
        } else if self.conf0 & CONF_UART1_CE != 0 {
            Some(1)
        } else if self.conf0 & CONF_UART2_CE != 0 {
            Some(2)
        } else {
            None
        }
    }

    /// An enabled interrupt is pending.
    pub fn int_st(&self) -> (r: bool)
        ensures
            r == (self@.int_raw & self@.int_ena != 0),
    {
        self.int_raw & self.int_ena != 0
    }

    /// The configured SLIP characters.
    fn esc_chars(&self) -> (c: SlipChars)
        ensures
            c == self@.chars(),
    {
        SlipChars {
            seper: (self.esc_conf & 0xFF) as u8,
            esc0: ((self.esc_conf >> 8) & 0xFF) as u8,
            esc1: ((self.esc_conf >> 16) & 0xFF) as u8,
        }
    }

    /// Frame `data` for the line.
    pub fn slip_encode(&self, data: &[u8]) -> (line: Vec<u8>)
        ensures
            line@ == self@.encoded(data@),
    {
        if self.conf0 & CONF_SEPER_EN == 0 {
            return copy_bytes(data);
        }
        let c: SlipChars = self.esc_chars();
        let mut out: Vec<u8> = Vec::new();
        out.push(c.seper);
        let mut i: usize = 0;
        while i < data.len()
            invariant
                i <= data@.len(),
                out@ =~= seq![c.seper] + c.escaped_all(data@.take(i as int)),
            decreases data@.len() - i,
        {
            let b: u8 = data[i];
            assert(data@.take(i + 1).drop_last() =~= data@.take(i as int));
            if b == c.seper {
                out.push(c.esc0);
                out.push(c.esc1);
            } else if b == c.esc0 {
                out.push(c.esc0);
                out.push(ESC_SELF_SECOND);
            } else {
                out.push(b);
            }
            i = i + 1;
        }
        assert(data@.take(i as int) =~= data@);
        out.push(c.seper);
        assert(out@ =~= c.framed(data@));
        out
    }

    /// Deframe one chunk of line bytes; a trailing escape byte carries over into
    /// the next chunk.
    pub fn slip_decode(&mut self, chunk: &[u8]) -> (data: Vec<u8>)
        ensures
            data@ == old(self)@.decoded(chunk@),
            final(self)@ == old(self)@.after_decode(chunk@),
    {
        if self.conf0 & CONF_SEPER_EN == 0 {
            return copy_bytes(chunk);
        }
        let c: SlipChars = self.esc_chars();
        let mut out: Vec<u8> = Vec::new();
        let mut i: usize = 0;
        while i < chunk.len()
            invariant
                i <= chunk@.len(),
                self@ == (UhciState {
                    dec_pend: c.pending(old(self)@.dec_pend, chunk@.take(i as int)),
                    ..old(self)@
                }),
                out@ =~= c.deframed(old(self)@.dec_pend, chunk@.take(i as int)),
            decreases chunk@.len() - i,
        {
            let b: u8 = chunk[i];
            assert(chunk@.take(i + 1).drop_last() =~= chunk@.take(i as int));
            if self.dec_pend {
                self.dec_pend = false;
                if b == c.esc1 {
                    out.push(c.seper);
                } else {
                    out.push(c.esc0);
                    if b != ESC_SELF_SECOND && b != c.esc0 && b != c.seper {
                        out.push(b);
                    }
                }
            } else if b == c.esc0 {
                self.dec_pend = true;
            } else if b != c.seper {
                out.push(b);
            }
            i = i + 1;
        }
        assert(chunk@.take(i as int) =~= chunk@);
        out
    }

    /// Latch the transmit start.
    pub fn latch_tx_start(&mut self)
        ensures
            final(self)@ == (UhciState {
                int_raw: old(self)@.int_raw | INT_TX_START,
                ..old(self)@
            }),
    {
        self.int_raw = self.int_raw | INT_TX_START;
    }

    /// Latch the receive start and restart the receive watchdog.
    pub fn latch_rx_start(&mut self)
        ensures
            final(self)@ == old(self)@.rx_started(),
    {
        self.int_raw = self.int_raw | INT_RX_START;
        self.hung_count = 0;
    }

    /// Receive watchdog tick.
    pub fn tick_rx_idle(&mut self, rx_empty: bool)
        ensures
            final(self)@ == old(self)@.idle_ticked(rx_empty),
    {
        if self.int_raw & INT_RX_START == 0 || !rx_empty {
            self.hung_count = 0;
            return;
        }
        self.hung_count = self.hung_count.wrapping_add(1);
        if self.hung_count >= RX_HUNG_TICKS {
            self.int_raw = self.int_raw | INT_RX_HUNG;
        }
    }

    /// Head capture armed.
    pub fn head_capture(&self) -> (r: bool)
        ensures
            r == self@.head_capture(),
    {
        self.conf0 & CONF_HEAD_EN != 0 && self.conf1 & CONF1_SAVE_HEAD != 0
    }

    /// Store the captured head, first payload byte in bits `[7:0]`.
    pub fn set_rx_head(&mut self, lo: u8, hi: u8)
        ensures
            final(self)@ == (UhciState {
                rx_head: ((hi as u32) << 8) | (lo as u32),
                ..old(self)@
            }),
    {
        self.rx_head = ((hi as u32) << 8) | (lo as u32);
    }

    pub fn read32(&self, off: u32) -> (v: u32)
        ensures
            v == self@.read(off),
    {
        match off {
            CONF0_OFF => self.conf0,
            CONF1_OFF => self.conf1,
            ESCAPE_CONF_OFF => self.esc_conf,
            RX_HEAD_OFF => self.rx_head,
            INT_RAW_OFF => self.int_raw,
            INT_ST_OFF => self.int_raw & self.int_ena,
            INT_ENA_OFF => self.int_ena,
            _ => 0,
        }
    }

    pub fn write32(&mut self, off: u32, value: u32)
        ensures
            final(self)@ == old(self)@.written(off, value),
    {
        match off {
            CONF0_OFF => {
                self.conf0 = value;
                if value & CONF_RX_RST != 0 {
                    self.dec_pend = false;
                }
            },
            CONF1_OFF => self.conf1 = value,
            ESCAPE_CONF_OFF => self.esc_conf = value,
            INT_ENA_OFF => self.int_ena = value,
            INT_CLR_OFF => self.int_raw = self.int_raw & !value,
            _ => {},
        }
    }
}

/// Chunks do not matter: deframing two runs in turn is deframing their
/// concatenation.
pub proof fn law_decode_chunks(s: UhciState, a: Seq<u8>, b: Seq<u8>)
    ensures
        s.decoded(a + b) == s.decoded(a) + s.after_decode(a).decoded(b),
        s.after_decode(a + b) == s.after_decode(a).after_decode(b),
{
    if s.framing() {
        lemma_deframe_concat(s.chars(), s.dec_pend, a, b);
    }
}

proof fn lemma_deframe_concat(c: SlipChars, pend: bool, a: Seq<u8>, b: Seq<u8>)
    ensures
        c.deframed(pend, a + b) == c.deframed(pend, a) + c.deframed(c.pending(pend, a), b),
        c.pending(pend, a + b) == c.pending(c.pending(pend, a), b),
    decreases b.len(),
{
    if b.len() == 0 {
        assert(a + b =~= a);
        assert(c.deframed(pend, a) + Seq::<u8>::empty() =~= c.deframed(pend, a));
    } else {
        lemma_deframe_concat(c, pend, a, b.drop_last());
        assert((a + b).drop_last() =~= a + b.drop_last());
        assert(c.deframed(pend, a + b) =~= c.deframed(pend, a) + c.deframed(
            c.pending(pend, a),
            b,
        ));
    }
}

/// One escaped byte deframes to itself and leaves nothing pending.
proof fn lemma_deframe_escaped(c: SlipChars, b: u8)
    requires
        c.distinct(),
    ensures
        c.deframed(false, c.escaped(b)) == seq![b],
        !c.pending(false, c.escaped(b)),
{
    reveal_with_fuel(SlipChars::deframed, 3);
    reveal_with_fuel(SlipChars::pending, 3);
    let e = c.escaped(b);
    if e.len() == 2 {
        assert(e.drop_last() =~= seq![c.esc0]);
        assert(seq![c.esc0].drop_last() =~= Seq::<u8>::empty());
    } else {
        assert(e.drop_last() =~= Seq::<u8>::empty());
    }
    assert(c.deframed(false, e) =~= seq![b]);
}

/// Escaped data deframes to itself and leaves nothing pending.
proof fn lemma_deframe_escaped_all(c: SlipChars, data: Seq<u8>)
    requires
        c.distinct(),
    ensures
        c.deframed(false, c.escaped_all(data)) == data,
        !c.pending(false, c.escaped_all(data)),
    decreases data.len(),
{
    if data.len() > 0 {
        lemma_deframe_escaped_all(c, data.drop_last());
        lemma_deframe_escaped(c, data.last());
        lemma_deframe_concat(
            c,
            false,
            c.escaped_all(data.drop_last()),
            c.escaped(data.last()),
        );
        assert(data.drop_last() + seq![data.last()] =~= data);
    } else {
        assert(c.deframed(false, c.escaped_all(data)) =~= data);
    }
}

/// Framing is undone by deframing: the receiver gets exactly the data that was
/// sent, and nothing is left pending. Holds for every choice of characters that
/// can be told apart, and in raw mode.
pub proof fn law_decode_undoes_encode(s: UhciState, data: Seq<u8>)
    requires
        s.framing() ==> s.chars().distinct() && !s.dec_pend,
    ensures
        s.decoded(s.encoded(data)) == data,
        s.after_decode(s.encoded(data)).dec_pend == s.dec_pend,
{
    if s.framing() {
        let c = s.chars();
        let body = c.escaped_all(data);
        let sep = seq![c.seper];
        lemma_deframe_escaped_all(c, data);
        reveal_with_fuel(SlipChars::deframed, 2);
        reveal_with_fuel(SlipChars::pending, 2);
        assert(sep.drop_last() =~= Seq::<u8>::empty());
        assert(c.deframed(false, sep) =~= Seq::<u8>::empty());
        assert(!c.pending(false, sep));
        lemma_deframe_concat(c, false, sep, body);
        lemma_deframe_concat(c, false, sep + body, sep);
        assert(c.deframed(false, c.framed(data)) =~= data);
    }
}

/// The separator never occurs inside a frame's body.
pub proof fn law_body_has_no_separator(c: SlipChars, data: Seq<u8>, i: int)
    requires
        c.seper != c.esc0,
        c.seper != c.esc1,
        c.seper != ESC_SELF_SECOND,
        0 <= i < c.escaped_all(data).len(),
    ensures
        c.escaped_all(data)[i] != c.seper,
    decreases data.len(),
{
    if data.len() > 0 && i < c.escaped_all(data.drop_last()).len() {
        law_body_has_no_separator(c, data.drop_last(), i);
    }
}

/// A started reception that stays dry is reported hung on exactly the
/// [`RX_HUNG_TICKS`]-th tick; data restarts the count.
pub proof fn law_hung_detection(s: UhciState)
    requires
        s.int_raw & INT_RX_START != 0,
        s.int_raw & INT_RX_HUNG == 0,
        s.hung_count < RX_HUNG_TICKS,
    ensures
        s.idle_ticked(true).int_raw & INT_RX_HUNG != 0 <==> s.hung_count + 1 == RX_HUNG_TICKS,
        s.idle_ticked(false).hung_count == 0,
{
    let raw = s.int_raw;
    crate::bits::lemma_masks(raw, 1u32 << 2, 0);
    crate::bits::lemma_constants();
}

/// Interrupt clear: exactly the written bits clear.
pub proof fn law_interrupt_clear(s: UhciState, v: u32)
    ensures
        s.written(INT_CLR_OFF, v).read(INT_RAW_OFF) == s.int_raw & !v,
        s.read(INT_ST_OFF) == s.int_raw & s.int_ena,
{
}

/// There are three UARTs to select from.
pub proof fn lemma_uart_sel(s: UhciState)
    ensures
        s.uart_sel() matches Some(n) ==> n < 3,
{
}

} // verus!
