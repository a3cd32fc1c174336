//! SPI-mode SD card.
//!
//! The card answers byte by byte: each transferred byte shifts the head of the
//! response queue out, then samples the incoming byte into the command
//! collector (or into an open block-write payload). Six collected bytes form a
//! command frame; its response is staged for the following bytes. Bytes clocked
//! while nothing is staged read as the pull-up idle byte `0xFF`.
//!
//! The byte stream is gated by chip-select: a deselected card samples nothing
//! and answers `0xFF`, and deselecting drops any partial frame or payload.

use vstd::prelude::*;
use crate::bytes::{lane, word_from_le};

verus! {

/// Bytes in a card block.
pub const BLOCK_BYTES: usize = 512;

/// Bytes in a block-write payload: token, data, CRC-16.
pub const PAYLOAD_BYTES: usize = 515;

/// Card-specific data register (version 2.0), most significant word first.
pub const CSD_WORDS: [u32; 4] = [0x400E_005A, 0x4359_0000, 0x0007_7F80, 0x0A40_0001];

/// One bit of the CRC-16/XMODEM division (polynomial `0x1021`).
pub open spec fn crc_bit(crc: u16) -> u16 {
    if crc & 0x8000 != 0 {
        (crc << 1) ^ 0x1021
    } else {
        crc << 1
    }
}

/// `n` bits of the CRC-16/XMODEM division.
pub open spec fn crc_bits(crc: u16, n: nat) -> u16
    decreases n,
{
    if n == 0 {
        crc
    } else {
        crc_bit(crc_bits(crc, (n - 1) as nat))
    }
}

/// CRC-16/XMODEM of a byte string (initial value 0).
pub open spec fn crc16(data: Seq<u8>) -> u16
    decreases data.len(),
{
    if data.len() == 0 {
        0
    } else {
        crc_bits(crc16(data.drop_last()) ^ ((data.last() as u16) << 8), 8)
    }
}

/// Big-endian bytes of a halfword.
pub open spec fn be_half(h: u16) -> Seq<u8> {
    seq![((h >> 8) & 0xFF) as u8, (h & 0xFF) as u8]
}

/// Big-endian bytes of a word.
pub open spec fn be_bytes(w: u32) -> Seq<u8> {
    seq![crate::bytes::byte_lane(w, 3), crate::bytes::byte_lane(w, 2), crate::bytes::byte_lane(w, 1), crate::bytes::byte_lane(w, 0)]
}

/// A data packet: start token, payload, CRC-16 of the payload.
pub open spec fn packet(data: Seq<u8>) -> Seq<u8> {
    seq![0xFEu8] + data + be_half(crc16(data))
}

/// CRC-16/XMODEM of the bytes of `data` from `start` on.
fn crc16_xmodem(data: &Vec<u8>, start: usize) -> (crc: u16)
    requires
        start <= data@.len(),
    ensures
        crc == crc16(data@.skip(start as int)),
{
    let mut crc: u16 = 0;
    let mut i: usize = start;
    while i < data.len()
        invariant
            start <= i <= data@.len(),
            crc == crc16(data@.subrange(start as int, i as int)),
        decreases data@.len() - i,
    {
        let ghost done = data@.subrange(start as int, i as int);
        let ghost more = data@.subrange(start as int, i + 1);
        assert(more.drop_last() =~= done);
        assert(more.last() == data@[i as int]);
        crc = crc ^ ((data[i] as u16) << 8);
        let ghost fresh = crc;
        let mut k: u32 = 0;
        while k < 8
            invariant
                k <= 8,
                crc == crc_bits(fresh, k as nat),
            decreases 8 - k,
        {
            crc = if crc & 0x8000 != 0 {
                (crc << 1) ^ 0x1021
            } else {
                crc << 1
            };
            k = k + 1;
        }
        i = i + 1;
    }
    assert(data@.subrange(start as int, data@.len() as int) =~= data@.skip(start as int));
    crc
}

/// Append the big-endian bytes of a halfword.
fn push_be_half(out: &mut Vec<u8>, h: u16)
    ensures
        final(out)@ == old(out)@ + be_half(h),
{
    out.push(((h >> 8) & 0xFF) as u8);
    out.push((h & 0xFF) as u8);
    assert(out@ =~= old(out)@ + be_half(h));
}

/// Append the big-endian bytes of a word.
fn push_be_word(out: &mut Vec<u8>, w: u32)
    ensures
        final(out)@ == old(out)@ + be_bytes(w),
{
    out.push(lane(w, 3));
    out.push(lane(w, 2));
    out.push(lane(w, 1));
    out.push(lane(w, 0));
    assert(out@ =~= old(out)@ + be_bytes(w));
}

/// What the card is made of.
#[verifier::ext_equal]
pub struct CardState {
    pub attached: bool,
    /// Not initialised yet (answers R1 `0x01`).
    pub idle: bool,
    pub storage: Seq<u8>,
    /// Staged response bytes.
    pub out: Seq<u8>,
    /// Collected bytes of the current command frame.
    pub cmd: Seq<u8>,
    /// Collected bytes of the current block-write payload.
    pub write: Seq<u8>,
    /// A write command was accepted; its data token is still to come.
    pub write_pending: bool,
    pub write_lba: u32,
    /// Multi-block write in progress.
    pub write_multi: bool,
    /// Multi-block read in progress.
    pub read_multi: bool,
    /// Block that the multi-block read stages next.
    pub read_lba: u32,
    /// Busy bytes left after a block write.
    pub busy: u32,
    /// ACMD41 polls since reset.
    pub acmd41: u32,
    /// The previous command was the APP_CMD prefix.
    pub app: bool,
    pub selected: bool,
}

impl CardState {
    /// A card slot with nothing attached.
    pub open spec fn empty() -> Self {
        CardState {
            attached: false,
            idle: true,
            storage: Seq::empty(),
            out: Seq::empty(),
            cmd: Seq::empty(),
            write: Seq::empty(),
            write_pending: false,
            write_lba: 0,
            write_multi: false,
            read_multi: false,
            read_lba: 0,
            busy: 0,
            acmd41: 0,
            app: false,
            selected: false,
        }
    }

    /// A freshly attached, uninitialised and deselected card.
    pub open spec fn attached_with(self, storage: Seq<u8>) -> Self {
        CardState {
            write_lba: self.write_lba,
            read_lba: self.read_lba,
            attached: true,
            storage,
            ..Self::empty()
        }
    }

    /// The card after its chip-select changes to `sel`. Deselection drops the
    /// byte-stream framing; staged responses and the init state survive.
    pub open spec fn with_select(self, sel: bool) -> Self {
        if self.selected && !sel {
            CardState {
                cmd: Seq::empty(),
                write: Seq::empty(),
                write_pending: false,
                write_multi: false,
                read_multi: false,
                app: false,
                selected: false,
                ..self
            }
        } else {
            CardState { selected: sel, ..self }
        }
    }

    /// R1 response byte: idle or ready.
    pub open spec fn r1(self) -> u8 {
        if self.idle {
            0x01
        } else {
            0x00
        }
    }

    pub open spec fn staging(self, bytes: Seq<u8>) -> Self {
        CardState { out: self.out + bytes, ..self }
    }

    /// Contents of block `lba`; bytes past the end of the card read 0.
    pub open spec fn block(self, lba: u32) -> Seq<u8> {
        Seq::new(
            BLOCK_BYTES as nat,
            |i: int|
                if lba * 512 + i < self.storage.len() {
                    self.storage[lba * 512 + i]
                } else {
                    0
                },
        )
    }

    pub open spec fn staging_block(self, lba: u32) -> Self {
        self.staging(packet(self.block(lba)))
    }

    /// Stage the next block of a multi-block read.
    pub open spec fn staging_next_read(self) -> Self {
        CardState { read_lba: self.read_lba.wrapping_add(1), ..self.staging_block(self.read_lba) }
    }

    /// The storage with `data` written over block `lba`, as far as it fits.
    pub open spec fn storage_with_block(self, lba: u32, data: Seq<u8>) -> Seq<u8> {
        Seq::new(
            self.storage.len(),
            |i: int|
                if lba * 512 <= i < lba * 512 + 512 {
                    data[i - lba * 512]
                } else {
                    self.storage[i]
                },
        )
    }

    /// Arm a block write at `lba`.
    pub open spec fn armed(self, lba: u32, multi: bool) -> Self {
        CardState {
            write_lba: lba,
            write: Seq::empty(),
            write_pending: true,
            write_multi: multi,
            ..self
        }
    }

    /// The card after decoding command `cmd` with argument `arg`; `app` tells
    /// whether the APP_CMD prefix came immediately before.
    pub open spec fn commanded(self, cmd: u8, arg: u32, app: bool) -> Self {
        match cmd {
            0 => (CardState { idle: true, acmd41: 0, ..self }).staging(seq![0x01u8]),
            8 => self.staging(seq![self.r1()] + be_bytes(arg)),
            55 => (CardState { app: true, ..self }).staging(seq![self.r1()]),
            41 => if !app {
                self.staging(seq![0x04u8])
            } else if self.acmd41.wrapping_add(1) == 1 {
                (CardState { acmd41: 1, ..self }).staging(seq![0x01u8])
            } else {
                (CardState { acmd41: self.acmd41.wrapping_add(1), idle: false, ..self }).staging(
                    seq![0x00u8],
                )
            },
            58 => self.staging(
                seq![self.r1()] + be_bytes(
                    if self.idle {
                        0x00FF_8000
                    } else {
                        0xC0FF_8000
                    },
                ),
            ),
            9 => if self.idle {
                self.staging(seq![self.r1()])
            } else {
                self.staging(seq![self.r1()] + packet(csd_bytes()))
            },
            17 => if self.idle {
                self.staging(seq![self.r1()])
            } else {
                self.staging(seq![self.r1()]).staging_block(arg)
            },
            18 => if self.idle {
                self.staging(seq![self.r1()])
            } else {
                CardState {
                    read_multi: true,
                    read_lba: arg.wrapping_add(1),
                    ..self.staging(seq![self.r1()]).staging_block(arg)
                }
            },
            12 => (CardState { read_multi: false, ..self }).staging(seq![self.r1()]),
            13 => self.staging(seq![self.r1(), 0x00u8]),
            23 => if !app {
                self.staging(seq![0x04u8])
            } else {
                self.staging(seq![self.r1()])
            },
            22 => if !app {
                self.staging(seq![0x04u8])
            } else if self.idle {
                self.staging(seq![self.r1()])
            } else {
                self.staging(seq![self.r1()] + packet(seq![0u8, 0u8, 0u8, 0u8]))
            },
            24 => if self.idle {
                self.staging(seq![self.r1()])
            } else {
                self.staging(seq![self.r1()]).armed(arg, false)
            },
            25 => if self.idle {
                self.staging(seq![self.r1()])
            } else {
                self.staging(seq![self.r1()]).armed(arg, true)
            },
            _ => self.staging(seq![self.r1()]),
        }
    }

    /// The card after a complete command frame. The APP_CMD prefix is consumed
    /// by every frame; a frame that does not open with the start bits is
    /// ignored.
    pub open spec fn decoded(self, f: Seq<u8>) -> Self {
        if f[0] & 0xC0 != 0x40 {
            self
        } else {
            (CardState { app: false, ..self }).commanded(
                f[0] & 0x3F,
                crate::bytes::le_word(f[4], f[3], f[2], f[1]),
                self.app,
            )
        }
    }

    /// The card after sampling a byte into the command collector. Only a byte
    /// with the start bits `01` opens a frame; the sixth byte completes it.
    pub open spec fn collecting(self, mosi: u8) -> Self {
        if self.cmd.len() == 0 && mosi & 0xC0 != 0x40 {
            self
        } else if self.cmd.len() + 1 < 6 {
            CardState { cmd: self.cmd.push(mosi), ..self }
        } else {
            (CardState { cmd: Seq::empty(), ..self }).decoded(self.cmd.push(mosi))
        }
    }

    /// The card after collecting a run of bytes.
    pub open spec fn collecting_all(self, bytes: Seq<u8>) -> Self
        decreases bytes.len(),
    {
        if bytes.len() == 0 {
            self
        } else {
            self.collecting_all(bytes.drop_last()).collecting(bytes.last())
        }
    }

    /// The card after sampling a byte of a block-write payload.
    pub open spec fn writing(self, mosi: u8) -> Self {
        if self.write.len() == 0 {
            if mosi == 0xFD && self.write_multi {
                (CardState { write_multi: false, write_pending: false, ..self }).collecting(mosi)
            } else if mosi == 0xFF {
                self
            } else if mosi == 0xFE || (mosi == 0xFC && self.write_multi) {
                CardState { write_pending: false, write: seq![mosi], ..self }
            } else {
                (CardState { write_pending: false, ..self }).collecting(mosi)
            }
        } else if self.write.len() + 1 < PAYLOAD_BYTES {
            CardState { write: self.write.push(mosi), ..self }
        } else {
            CardState {
                storage: self.storage_with_block(
                    self.write_lba,
                    self.write.push(mosi).subrange(1, 513),
                ),
                write: Seq::empty(),
                write_lba: if self.write_multi {
                    self.write_lba.wrapping_add(1)
                } else {
                    self.write_lba
                },
                out: self.out.push(0x05),
                busy: 2,
                ..self
            }
        }
    }

    /// The card after sampling a run of bytes of a block-write payload.
    pub open spec fn writing_all(self, bytes: Seq<u8>) -> Self
        decreases bytes.len(),
    {
        if bytes.len() == 0 {
            self
        } else {
            self.writing_all(bytes.drop_last()).writing(bytes.last())
        }
    }

    /// The card after sampling a byte: into an open payload, or into the
    /// command collector.
    pub open spec fn sampling(self, mosi: u8) -> Self {
        if self.write.len() > 0 || self.write_pending || (self.write_multi && mosi != 0xFF) {
            self.writing(mosi)
        } else {
            self.collecting(mosi)
        }
    }

    /// The bus is held low by a block being programmed.
    pub open spec fn holds_busy(self) -> bool {
        self.busy > 0 && self.out.len() == 0
    }

    /// The card once the next response byte is ready: a multi-block read
    /// stages its next block when the queue has run empty.
    pub open spec fn refilled(self) -> Self {
        if self.holds_busy() {
            if self.busy == 1 && self.read_multi {
                (CardState { busy: 0, ..self }).staging_next_read()
            } else {
                CardState { busy: (self.busy - 1) as u32, ..self }
            }
        } else if self.read_multi && self.out.len() == 0 && !self.write_pending && self.write.len()
            == 0 {
            self.staging_next_read()
        } else {
            self
        }
    }

    /// The byte that the card drives on the next eight clocks.
    pub open spec fn miso(self) -> u8 {
        if !self.attached || !self.selected {
            0xFF
        } else if self.holds_busy() {
            0x00
        } else if self.refilled().out.len() > 0 {
            self.refilled().out[0]
        } else {
            0xFF
        }
    }

    /// The card after eight clocks that carry `mosi`.
    pub open spec fn fed(self, mosi: u8) -> Self {
        if !self.attached || !self.selected {
            self
        } else if self.holds_busy() || self.refilled().out.len() == 0 {
            self.refilled().sampling(mosi)
        } else {
            (CardState { out: self.refilled().out.skip(1), ..self.refilled() }).sampling(mosi)
        }
    }

    /// The card after a run of bytes.
    pub open spec fn fed_all(self, bytes: Seq<u8>) -> Self
        decreases bytes.len(),
    {
        if bytes.len() == 0 {
            self
        } else {
            self.fed_all(bytes.drop_last()).fed(bytes.last())
        }
    }

    /// The bytes that the card answers to a run of bytes.
    pub open spec fn miso_all(self, bytes: Seq<u8>) -> Seq<u8>
        decreases bytes.len(),
    {
        if bytes.len() == 0 {
            Seq::empty()
        } else {
            self.miso_all(bytes.drop_last()).push(self.fed_all(bytes.drop_last()).miso())
        }
    }
}

/// The card-specific data register as it is sent.
pub open spec fn csd_bytes() -> Seq<u8> {
    be_bytes(CSD_WORDS[0]) + be_bytes(CSD_WORDS[1]) + be_bytes(CSD_WORDS[2]) + be_bytes(
        CSD_WORDS[3],
    )
}

/// SPI-mode SD card behind a SPI controller.
pub struct SdspiCard {
    attached: bool,
    idle: bool,
    storage: Vec<u8>,
    out: Vec<u8>,
    cmd: Vec<u8>,
    write: Vec<u8>,
    write_pending: bool,
    write_lba: u32,
    write_multi: bool,
    read_multi: bool,
    read_lba: u32,
    busy: u32,
    acmd41: u32,
    app: bool,
    selected: bool,
}

impl View for SdspiCard {
    type V = CardState;

    closed spec fn view(&self) -> CardState {
        CardState {
            attached: self.attached,
            idle: self.idle,
            storage: self.storage@,
            out: self.out@,
            cmd: self.cmd@,
            write: self.write@,
            write_pending: self.write_pending,
            write_lba: self.write_lba,
            write_multi: self.write_multi,
            read_multi: self.read_multi,
            read_lba: self.read_lba,
            busy: self.busy,
            acmd41: self.acmd41,
            app: self.app,
            selected: self.selected,
        }
    }
}

impl SdspiCard {
    pub fn new() -> (card: Self)
        ensures
            card@ == CardState::empty(),
    {
        SdspiCard {
            attached: false,
            idle: true,
            storage: Vec::new(),
            out: Vec::new(),
            cmd: Vec::new(),
            write: Vec::new(),
            write_pending: false,
            write_lba: 0,
            write_multi: false,
            read_multi: false,
            read_lba: 0,
            busy: 0,
            acmd41: 0,
            app: false,
            selected: false,
        }
    }

    /// Attach the card with `blocks` zeroed blocks.
    pub fn attach(&mut self, blocks: usize)
        requires
            blocks * 512 <= usize::MAX,
        ensures
            final(self)@ == old(self)@.attached_with(Seq::new((blocks * 512) as nat, |i: int| 0u8)),
    {
        let zeroed: Vec<u8> = vec![0u8; blocks * 512];
        assert(zeroed@ =~= Seq::new((blocks * 512) as nat, |i: int| 0u8));
        self.attach_storage(zeroed);
    }

    /// Attach the card with a preformatted image.
    pub fn attach_image(&mut self, image: &[u8])
        ensures
            final(self)@ == old(self)@.attached_with(image@),
    {
        let mut storage: Vec<u8> = Vec::new();
        storage.extend_from_slice(image);
        assert(storage@ =~= image@);
        self.attach_storage(storage);
    }

    fn attach_storage(&mut self, storage: Vec<u8>)
        ensures
            final(self)@ == old(self)@.attached_with(storage@),
    {
        self.attached = true;
        self.idle = true;
        self.storage = storage;
        self.out.clear();
        self.cmd.clear();
        self.write.clear();
        self.write_pending = false;
        self.write_multi = false;
        self.read_multi = false;
        self.busy = 0;
        self.acmd41 = 0;
        self.app = false;
        self.selected = false;
        assert(self@ =~= old(self)@.attached_with(storage@));
    }

    /// Chip-select the card: `sel` while the select line is low.
    pub fn select(&mut self, sel: bool)
        ensures
            final(self)@ == old(self)@.with_select(sel),
    {
        if self.selected && !sel {
            self.cmd.clear();
            self.write.clear();
            self.write_pending = false;
            self.write_multi = false;
            self.read_multi = false;
            self.app = false;
        }
        self.selected = sel;
        assert(self@ =~= old(self)@.with_select(sel));
    }

    /// Stage one block read: token, data, CRC-16.
    fn stage_block(&mut self, lba: u32)
        ensures
            final(self)@ == old(self)@.staging_block(lba),
    {
        let base: u64 = lba as u64 * 512;
        let ghost old_out = self.out@;
        let ghost block = self@.block(lba);
        self.out.push(0xFE);
        let start: usize = self.out.len();
        let mut i: u64 = 0;
        while i < 512
            invariant
                i <= 512,
                base == lba as u64 * 512,
                start == old_out.len() + 1,
                self.out@ =~= old_out.push(0xFEu8) + block.take(i as int),
                block == old(self)@.block(lba),
                self@ == (CardState { out: self.out@, ..old(self)@ }),
            decreases 512 - i,
        {
            let b: u8 = if base + i < self.storage.len() as u64 {
                self.storage[(base + i) as usize]
            } else {
                0
            };
            assert(b == block[i as int]);
            assert(block.take(i + 1) =~= block.take(i as int).push(b));
            self.out.push(b);
            i = i + 1;
        }
        assert(block.take(512) =~= block);
        assert(self.out@.skip(start as int) =~= block);
        let crc: u16 = crc16_xmodem(&self.out, start);
        push_be_half(&mut self.out, crc);
        assert(self.out@ =~= old_out + packet(block));
        assert(self@ =~= old(self)@.staging_block(lba));
    }

    /// True once a card is attached.
    pub fn attached(&self) -> (r: bool)
        ensures
            r == self@.attached,
    {
        self.attached
    }

    /// Feed one incoming byte; returns the byte driven on the same clocks. The
    /// response queue is popped before the incoming byte is sampled.
    pub fn feed(&mut self, mosi: u8) -> (miso: u8)
        ensures
            miso == old(self)@.miso(),
            final(self)@ == old(self)@.fed(mosi),
    {
        if !self.attached || !self.selected {
            return 0xFF;
        }
        let r: u8;
        if self.busy > 0 && self.out.is_empty() {
            self.busy = self.busy - 1;
            if self.busy == 0 && self.read_multi {
                self.stage_next_read();
            }
            assert(self@ =~= old(self)@.refilled());
            r = 0x00;
        } else {
            if self.read_multi && self.out.is_empty() && !self.write_pending
                && self.write.is_empty() {
                self.stage_next_read();
            }
            assert(self@ =~= old(self)@.refilled());
            if !self.out.is_empty() {
                r = self.out.remove(0);
                assert(self.out@ =~= old(self)@.refilled().out.skip(1));
                assert(self@ =~= (CardState {
                    out: old(self)@.refilled().out.skip(1),
                    ..old(self)@.refilled()
                }));
            } else {
                r = 0xFF;
            }
        }
        if !self.write.is_empty() || self.write_pending || (self.write_multi && mosi != 0xFF) {
            self.feed_write(mosi);
        } else {
            self.collect_cmd(mosi);
        }
        r
    }

    /// Stage the next block of a multi-block read.
    fn stage_next_read(&mut self)
        ensures
            final(self)@ == old(self)@.staging_next_read(),
    {
        let lba: u32 = self.read_lba;
        self.read_lba = self.read_lba.wrapping_add(1);
        self.stage_block(lba);
        assert(self@ =~= old(self)@.staging_next_read());
    }

    /// Collect a byte of a command frame; the sixth decodes it.
    fn collect_cmd(&mut self, mosi: u8)
        ensures
            final(self)@ == old(self)@.collecting(mosi),
    {
        if self.cmd.is_empty() {
            if mosi & 0xC0 != 0x40 {
                return;
            }
        }
        self.cmd.push(mosi);
        if self.cmd.len() < 6 {
            assert(self@ =~= old(self)@.collecting(mosi));
            return;
        }
        let f: [u8; 6] = [
            self.cmd[0],
            self.cmd[1],
            self.cmd[2],
            self.cmd[3],
            self.cmd[4],
            self.cmd[5],
        ];
        self.cmd.clear();
        assert(self@ =~= (CardState { cmd: Seq::empty(), ..old(self)@ }));
        self.decode(f);
    }

    /// Collect the bytes of a transfer that clocks no response in.
    pub fn collect_cmd_bytes(&mut self, bytes: &[u8])
        ensures
            final(self)@ == old(self)@.collecting_all(bytes@),
    {
        let mut i: usize = 0;
        assert(bytes@.take(0) =~= Seq::<u8>::empty());
        while i < bytes.len()
            invariant
                i <= bytes@.len(),
                self@ == old(self)@.collecting_all(bytes@.take(i as int)),
            decreases bytes@.len() - i,
        {
            assert(bytes@.take(i + 1).drop_last() =~= bytes@.take(i as int));
            self.collect_cmd(bytes[i]);
            i = i + 1;
        }
        assert(bytes@.take(i as int) =~= bytes@);
    }

    /// Stage the R1 response of the current state.
    fn push_r1(&mut self)
        ensures
            final(self)@ == old(self)@.staging(seq![old(self)@.r1()]),
    {
        self.push_byte(if self.idle { 0x01 } else { 0x00 });
    }

    fn push_byte(&mut self, b: u8)
        ensures
            final(self)@ == old(self)@.staging(seq![b]),
    {
        self.out.push(b);
        assert(self@ =~= old(self)@.staging(seq![b]));
    }

    fn push_word(&mut self, w: u32)
        ensures
            final(self)@ == old(self)@.staging(be_bytes(w)),
    {
        push_be_word(&mut self.out, w);
        assert(self@ =~= old(self)@.staging(be_bytes(w)));
    }

    /// Stage the CRC-16 of the staged bytes from `start` on.
    fn push_crc(&mut self, start: usize)
        requires
            start <= old(self)@.out.len(),
        ensures
            final(self)@ == old(self)@.staging(be_half(crc16(old(self)@.out.skip(start as int)))),
    {
        let crc: u16 = crc16_xmodem(&self.out, start);
        push_be_half(&mut self.out, crc);
        assert(self@ =~= old(self)@.staging(be_half(crc16(old(self)@.out.skip(start as int)))));
    }

    /// Arm a block write at `lba`.
    fn arm_write(&mut self, lba: u32, multi: bool)
        ensures
            final(self)@ == old(self)@.armed(lba, multi),
    {
        self.write_lba = lba;
        self.write.clear();
        self.write_pending = true;
        self.write_multi = multi;
        assert(self@ =~= old(self)@.armed(lba, multi));
    }

    /// Stage the card-specific data register.
    fn stage_csd(&mut self)
        ensures
            final(self)@ == old(self)@.staging(packet(csd_bytes())),
    {
        let ghost s0 = self@;
        self.push_byte(0xFE);
        let start: usize = self.out.len();
        self.push_word(CSD_WORDS[0]);
        self.push_word(CSD_WORDS[1]);
        self.push_word(CSD_WORDS[2]);
        self.push_word(CSD_WORDS[3]);
        assert(self@.out.skip(start as int) =~= csd_bytes());
        self.push_crc(start);
        assert(self@ =~= s0.staging(packet(csd_bytes())));
    }

    /// Stage a count of zero written blocks.
    fn stage_written_count(&mut self)
        ensures
            final(self)@ == old(self)@.staging(packet(seq![0u8, 0u8, 0u8, 0u8])),
    {
        let ghost s0 = self@;
        self.push_byte(0xFE);
        let start: usize = self.out.len();
        self.push_byte(0x00);
        self.push_byte(0x00);
        self.push_byte(0x00);
        self.push_byte(0x00);
        assert(self@.out.skip(start as int) =~= seq![0u8, 0u8, 0u8, 0u8]);
        self.push_crc(start);
        assert(self@ =~= s0.staging(packet(seq![0u8, 0u8, 0u8, 0u8])));
    }

    /// SEND_IF_COND: R1 and the argument echoed.
    fn send_if_cond(&mut self, arg: u32)
        ensures
            final(self)@ == old(self)@.commanded(8, arg, false),
    {
        self.push_r1();
        self.push_word(arg);
        assert(self@ =~= old(self)@.commanded(8, arg, false));
    }

    /// SD_SEND_OP_COND: busy on the first poll, then ready. Illegal without the
    /// APP_CMD prefix.
    fn send_op_cond(&mut self, app: bool)
        ensures
            final(self)@ == old(self)@.commanded(41, 0, app),
    {
        if !app {
            self.push_byte(0x04);
        } else {
            self.acmd41 = self.acmd41.wrapping_add(1);
            if self.acmd41 == 1 {
                self.push_byte(0x01);
            } else {
                self.idle = false;
                self.push_byte(0x00);
            }
        }
    }

    /// READ_OCR: R1 and the operating conditions register.
    fn read_ocr(&mut self)
        ensures
            final(self)@ == old(self)@.commanded(58, 0, false),
    {
        let idle: bool = self.idle;
        self.push_r1();
        self.push_word(if idle { 0x00FF_8000 } else { 0xC0FF_8000 });
        assert(self@ =~= old(self)@.commanded(58, 0, false));
    }

    /// SEND_CSD: R1 and, once ready, the card-specific data register.
    fn send_csd(&mut self)
        ensures
            final(self)@ == old(self)@.commanded(9, 0, false),
    {
        self.push_r1();
        if !self.idle {
            self.stage_csd();
            assert(self@ =~= old(self)@.commanded(9, 0, false));
        }
    }

    /// SEND_STATUS: R1 and a status byte.
    fn send_status(&mut self)
        ensures
            final(self)@ == old(self)@.commanded(13, 0, false),
    {
        self.push_r1();
        self.push_byte(0x00);
        assert(self@ =~= old(self)@.commanded(13, 0, false));
    }

    /// SEND_NUM_WR_BLOCKS: R1 and, once ready, a block count. Illegal without
    /// the APP_CMD prefix.
    fn send_num_written(&mut self, app: bool)
        ensures
            final(self)@ == old(self)@.commanded(22, 0, app),
    {
        if !app {
            self.push_byte(0x04);
        } else {
            self.push_r1();
            if !self.idle {
                self.stage_written_count();
                assert(self@ =~= old(self)@.commanded(22, 0, app));
            }
        }
    }

    /// Decode one command frame and stage its response.
    #[verifier::spinoff_prover]
    #[verifier::rlimit(60)]
    fn decode(&mut self, f: [u8; 6])
        ensures
            final(self)@ == old(self)@.decoded(f@),
    {
        if f[0] & 0xC0 != 0x40 {
            return;
        }
        let cmd: u8 = f[0] & 0x3F;
        let arg: u32 = word_from_le(f[4], f[3], f[2], f[1]);
        let app: bool = self.app;
        self.app = false;
        match cmd {
            0 => {
                self.idle = true;
                self.acmd41 = 0;
                self.push_byte(0x01);
            },
            8 => self.send_if_cond(arg),
            55 => {
                self.app = true;
                self.push_r1();
            },
            41 => self.send_op_cond(app),
            58 => self.read_ocr(),
            9 => self.send_csd(),
            17 => {
                self.push_r1();
                if !self.idle {
                    self.stage_block(arg);
                }
            },
            18 => {
                self.push_r1();
                if !self.idle {
                    self.stage_block(arg);
                    self.read_multi = true;
                    self.read_lba = arg.wrapping_add(1);
                }
            },
            12 => {
                self.read_multi = false;
                self.push_r1();
            },
            13 => self.send_status(),
            23 => {
                if !app {
                    self.push_byte(0x04);
                } else {
                    self.push_r1();
                }
            },
            22 => self.send_num_written(app),
            24 => {
                self.push_r1();
                if !self.idle {
                    self.arm_write(arg, false);
                }
            },
            25 => {
                self.push_r1();
                if !self.idle {
                    self.arm_write(arg, true);
                }
            },
            _ => {
                self.push_r1();
            },
        }
    }

    /// Collect a byte of a block-write payload. The byte that completes it
    /// commits the block, stages the data response and starts the busy phase.
    fn feed_write(&mut self, mosi: u8)
        ensures
            final(self)@ == old(self)@.writing(mosi),
    {
        if self.write.is_empty() {
            if mosi == 0xFD && self.write_multi {
                self.write_multi = false;
                self.write_pending = false;
                self.collect_cmd(mosi);
                return;
            }
            if mosi == 0xFF {
                return;
            }
            self.write_pending = false;
            if mosi != 0xFE && !(mosi == 0xFC && self.write_multi) {
                self.collect_cmd(mosi);
            } else {
                self.write.push(mosi);
                assert(self@ =~= old(self)@.writing(mosi));
            }
            return;
        }
        self.write.push(mosi);
        if self.write.len() >= PAYLOAD_BYTES {
            self.commit_block();
            self.write.clear();
            if self.write_multi {
                self.write_lba = self.write_lba.wrapping_add(1);
            }
            self.out.push(0x05);
            self.busy = 2;
        }
        assert(self@ =~= old(self)@.writing(mosi));
    }

    /// Copy the collected payload's data over its block.
    fn commit_block(&mut self)
        requires
            old(self)@.write.len() >= PAYLOAD_BYTES,
        ensures
            final(self)@ == (CardState {
                storage: old(self)@.storage_with_block(
                    old(self)@.write_lba,
                    old(self)@.write.subrange(1, 513),
                ),
                ..old(self)@
            }),
    {
        let base: u64 = self.write_lba as u64 * 512;
        let mut i: usize = 0;
        while i < 512
            invariant
                i <= 512,
                base == self.write_lba as u64 * 512,
                self.write@.len() >= PAYLOAD_BYTES,
                self@ == (CardState { storage: self.storage@, ..old(self)@ }),
                self.storage@.len() == old(self)@.storage.len(),
                forall|k: int|
                    0 <= k < self.storage@.len() ==> self.storage@[k] == if base <= k < base + i {
                        old(self)@.write[1 + k - base]
                    } else {
                        old(self)@.storage[k]
                    },
            decreases 512 - i,
        {
            let at: u64 = base + i as u64;
            if at < self.storage.len() as u64 {
                let b: u8 = self.write[1 + i];
                self.storage[at as usize] = b;
            }
            i = i + 1;
        }
        assert(self.storage@ =~= old(self)@.storage_with_block(
            old(self)@.write_lba,
            old(self)@.write.subrange(1, 513),
        ));
    }
}

/// A card that is not attached or not selected samples nothing and reads as the
/// pull-up idle byte.
pub proof fn law_deselected_card_is_silent(c: CardState, mosi: u8)
    requires
        !c.attached || !c.selected,
    ensures
        c.fed(mosi) == c,
        c.miso() == 0xFF,
{
}

/// Deselecting drops every partial frame and payload, and keeps the staged
/// responses, the busy phase, the init state and the contents.
pub proof fn law_deselect_drops_framing(c: CardState)
    requires
        c.selected,
    ensures
        c.with_select(false).cmd.len() == 0,
        c.with_select(false).write.len() == 0,
        !c.with_select(false).write_pending,
        !c.with_select(false).app,
        c.with_select(false).out == c.out,
        c.with_select(false).busy == c.busy,
        c.with_select(false).idle == c.idle,
        c.with_select(false).acmd41 == c.acmd41,
        c.with_select(false).storage == c.storage,
{
}

/// Bring-up: reset answers idle, the first operating-condition poll answers
/// busy, the second answers ready; from then on R1 reads ready.
pub proof fn law_init_sequence(c: CardState, a: u32, b: u32)
    ensures
        ({
            let reset = c.commanded(0, a, false);
            let polled = reset.commanded(41, b, true);
            let ready = polled.commanded(41, b, true);
            &&& reset.out == c.out.push(0x01)
            &&& polled.out == c.out.push(0x01).push(0x01)
            &&& polled.r1() == 0x01
            &&& ready.out == c.out.push(0x01).push(0x01).push(0x00)
            &&& ready.r1() == 0x00
        }),
{
    let reset = c.commanded(0, a, false);
    let polled = reset.commanded(41, b, true);
    let ready = polled.commanded(41, b, true);
    assert(reset.out =~= c.out.push(0x01));
    assert(polled.out =~= reset.out.push(0x01));
    assert(ready.out =~= polled.out.push(0x00));
}

/// An application command without its prefix is illegal: R1 `0x04`, and the
/// init state stays.
pub proof fn law_bare_application_command_is_illegal(c: CardState, cmd: u8, arg: u32)
    requires
        cmd == 41 || cmd == 23 || cmd == 22,
    ensures
        c.commanded(cmd, arg, false) == c.staging(seq![0x04u8]),
{
}

/// Every decoded frame consumes the APP_CMD prefix; only APP_CMD itself sets it
/// again.
pub proof fn law_prefix_is_consumed(c: CardState, f: Seq<u8>)
    requires
        f[0] & 0xC0 == 0x40,
    ensures
        c.decoded(f).app == (f[0] & 0x3F == 55),
{
}

/// Bytes of an open payload accumulate; nothing else of the write changes.
proof fn lemma_payload_accumulates(c: CardState, payload: Seq<u8>, k: nat)
    requires
        c.attached && c.selected,
        c.write_pending && c.write.len() == 0,
        payload.len() == PAYLOAD_BYTES,
        payload[0] == 0xFE,
        1 <= k < PAYLOAD_BYTES,
    ensures
        ({
            let d = c.fed_all(payload.take(k as int));
            &&& d.attached && d.selected
            &&& d.write == payload.take(k as int)
            &&& d.write_lba == c.write_lba
            &&& d.write_multi == c.write_multi
            &&& d.storage == c.storage
            &&& d.idle == c.idle
        }),
    decreases k,
{
    let before = payload.take(k - 1);
    assert(payload.take(k as int).drop_last() =~= before);
    assert(payload.take(k as int).last() == payload[k - 1]);
    if k == 1 {
        assert(before =~= Seq::<u8>::empty());
        assert(payload.take(1) =~= seq![0xFEu8]);
    } else {
        lemma_payload_accumulates(c, payload, (k - 1) as nat);
        assert(payload.take(k as int) =~= before.push(payload[k - 1]));
    }
}

/// A block write is read back: feeding a token, 512 data bytes and two CRC bytes
/// to a card with a write armed stores the data over its block, and a later
/// single-block read stages that data. Every other block keeps its contents.
pub proof fn law_block_write_read_back(
    c: CardState,
    data: Seq<u8>,
    crc_hi: u8,
    crc_lo: u8,
    other: u32,
)
    requires
        c.attached && c.selected,
        c.write_pending && c.write.len() == 0,
        data.len() == BLOCK_BYTES,
        c.write_lba * 512 + 512 <= c.storage.len(),
        other != c.write_lba,
    ensures
        ({
            let d = c.fed_all(seq![0xFEu8] + data + seq![crc_hi, crc_lo]);
            &&& d.block(c.write_lba) == data
            &&& d.block(other) == c.block(other)
            &&& !c.idle ==> d.commanded(17, c.write_lba, false).out == d.out + seq![0x00u8]
                + packet(data)
        }),
{
    let payload = seq![0xFEu8] + data + seq![crc_hi, crc_lo];
    let most = payload.take(514);
    lemma_payload_accumulates(c, payload, 514);
    let m = c.fed_all(most);
    let d = c.fed_all(payload);
    assert(payload.drop_last() =~= most);
    assert(d == m.fed(crc_lo));
    assert(most.push(crc_lo).subrange(1, 513) =~= data);
    assert(d.storage == c.storage_with_block(c.write_lba, data));
    assert(d.block(c.write_lba) =~= data);
    assert(d.block(other) =~= c.block(other));
    if !c.idle {
        assert(!d.idle);
        assert(d.commanded(17, c.write_lba, false).out =~= d.out + seq![0x00u8] + packet(data));
    }
}

/// A poll does not open a frame.
proof fn lemma_poll_opens_no_frame()
    ensures
        0xFFu8 & 0xC0 == 0xC0,
{
    crate::bits::lemma_constants();
}

/// After a completed block write the card answers the data response `0x05`,
/// holds the bus low for two bytes, then releases it.
pub proof fn law_data_response_then_busy(c: CardState, mosi: u8)
    requires
        c.attached && c.selected,
        c.write.len() == PAYLOAD_BYTES - 1,
        c.out.len() == 0,
        c.busy == 0,
        c.cmd.len() == 0,
        !c.read_multi,
        !c.write_pending,
    ensures
        c.miso() == 0xFF,
        ({
            let d = c.fed(mosi);
            &&& d.miso() == 0x05
            &&& d.fed(0xFF).miso() == 0x00
            &&& d.fed(0xFF).fed(0xFF).miso() == 0x00
            &&& d.fed(0xFF).fed(0xFF).fed(0xFF).miso() == 0xFF
        }),
{
    lemma_poll_opens_no_frame();
    let d = c.fed(mosi);
    assert(d.out =~= seq![0x05u8]);
    let d1 = d.fed(0xFF);
    assert(d1.out =~= Seq::<u8>::empty());
    let d2 = d1.fed(0xFF);
    assert(d2.out =~= Seq::<u8>::empty());
}

/// `n` polls: bytes with all bits set.
pub open spec fn polls(n: nat) -> Seq<u8> {
    Seq::new(n, |i: int| 0xFFu8)
}

/// A command frame: start bits and command, argument, CRC-7.
pub open spec fn frame(cmd: u8, arg: u32, crc: u8) -> Seq<u8> {
    seq![0x40u8 | cmd] + be_bytes(arg) + seq![crc]
}

impl CardState {
    /// The card is initialised and selected, and nothing is under way.
    pub open spec fn ready(self) -> bool {
        &&& self.attached && self.selected && !self.idle
        &&& self.out.len() == 0 && self.cmd.len() == 0 && self.write.len() == 0
        &&& !self.write_pending && !self.write_multi && !self.read_multi
        &&& self.busy == 0
    }
}

/// One more byte of a run.
proof fn lemma_feed_one(c: CardState, bytes: Seq<u8>, b: u8)
    ensures
        c.fed_all(bytes.push(b)) == c.fed_all(bytes).fed(b),
        c.miso_all(bytes.push(b)) == c.miso_all(bytes).push(c.fed_all(bytes).miso()),
{
    assert(bytes.push(b).drop_last() =~= bytes);
}

/// The first `k` bytes of a frame are collected, and answered by the idle byte.
proof fn lemma_frame_collects(c: CardState, f: Seq<u8>, k: nat)
    requires
        c.ready(),
        f.len() == 6,
        f[0] & 0xC0 == 0x40,
        k <= 5,
    ensures
        c.fed_all(f.take(k as int)) == (CardState { cmd: f.take(k as int), ..c }),
        c.miso_all(f.take(k as int)) == polls(k),
    decreases k,
{
    if k == 0 {
        assert(f.take(0) =~= Seq::<u8>::empty());
        assert(c.cmd =~= Seq::<u8>::empty());
        assert(c.miso_all(f.take(0)) =~= polls(0));
    } else {
        let before = f.take(k - 1);
        lemma_frame_collects(c, f, (k - 1) as nat);
        assert(f.take(k as int) =~= before.push(f[k - 1]));
        lemma_feed_one(c, before, f[k - 1]);
        assert(polls((k - 1) as nat).push(0xFF) =~= polls(k));
    }
}

/// A frame sent to a ready card is answered by idle bytes while it is sent, and
/// is then carried out.
proof fn lemma_frame(c: CardState, cmd: u8, arg: u32, crc: u8)
    requires
        c.ready(),
        cmd < 0x40,
    ensures
        c.fed_all(frame(cmd, arg, crc)) == (CardState { app: false, ..c }).commanded(
            cmd,
            arg,
            c.app,
        ),
        c.miso_all(frame(cmd, arg, crc)) == polls(6),
{
    let f = frame(cmd, arg, crc);
    let b = 0x40u8 | cmd;
    assert(b & 0xC0 == 0x40 && b & 0x3F == cmd) by (bit_vector)
        requires
            b == 0x40u8 | cmd,
            cmd < 0x40,
    ;
    lemma_frame_collects(c, f, 5);
    lemma_feed_one(c, f.take(5), crc);
    assert(f =~= f.take(5).push(crc));
    crate::bytes::lemma_le_word_of_lanes(arg);
    assert(polls(5).push(0xFF) =~= polls(6));
    assert((CardState { cmd: Seq::empty(), ..c }) =~= c);
}

/// Polls take the staged bytes in order, and do nothing else.
proof fn lemma_polled(c: CardState, n: nat)
    requires
        (CardState { out: Seq::empty(), ..c }).ready(),
        n <= c.out.len(),
    ensures
        c.fed_all(polls(n)) == (CardState { out: c.out.skip(n as int), ..c }),
        c.miso_all(polls(n)) == c.out.take(n as int),
    decreases n,
{
    lemma_poll_opens_no_frame();
    if n == 0 {
        assert(polls(0) =~= Seq::<u8>::empty());
        assert(c.out.skip(0) =~= c.out);
        assert(c.out.take(0) =~= Seq::<u8>::empty());
    } else {
        let m = (n - 1) as nat;
        lemma_polled(c, m);
        assert(polls(n) =~= polls(m).push(0xFF));
        lemma_feed_one(c, polls(m), 0xFF);
        assert(c.out.skip(m as int).skip(1) =~= c.out.skip(n as int));
        assert(c.out.take(n as int) =~= c.out.take(m as int).push(c.out[m as int]));
    }
}

/// The first `k` bytes of a payload are collected, and answered by the idle
/// byte.
proof fn lemma_payload_collects(c: CardState, payload: Seq<u8>, k: nat)
    requires
        (CardState { write_pending: false, ..c }).ready(),
        c.write_pending,
        payload.len() == PAYLOAD_BYTES,
        payload[0] == 0xFE,
        1 <= k < PAYLOAD_BYTES,
    ensures
        c.fed_all(payload.take(k as int)) == (CardState {
            write_pending: false,
            write: payload.take(k as int),
            ..c
        }),
        c.miso_all(payload.take(k as int)) == polls(k),
    decreases k,
{
    let before = payload.take(k - 1);
    assert(payload.take(k as int) =~= before.push(payload[k - 1]));
    lemma_feed_one(c, before, payload[k - 1]);
    if k == 1 {
        assert(before =~= Seq::<u8>::empty());
        assert(payload.take(1) =~= seq![0xFEu8]);
        assert(c.miso_all(payload.take(1)) =~= polls(1));
    } else {
        lemma_payload_collects(c, payload, (k - 1) as nat);
        assert(polls((k - 1) as nat).push(0xFF) =~= polls(k));
    }
}

/// A whole payload is stored.
#[verifier::spinoff_prover]
#[verifier::rlimit(60)]
proof fn lemma_payload_stored(c: CardState, data: Seq<u8>, crc_hi: u8, crc_lo: u8)
    requires
        (CardState { write_pending: false, ..c }).ready(),
        c.write_pending,
        data.len() == BLOCK_BYTES,
    ensures
        ({
            let payload = seq![0xFEu8] + data + seq![crc_hi, crc_lo];
            &&& c.miso_all(payload) == polls(515)
            &&& c.fed_all(payload) == (CardState {
                write_pending: false,
                storage: c.storage_with_block(c.write_lba, data),
                out: seq![0x05u8],
                busy: 2,
                ..c
            })
        }),
{
    let payload = seq![0xFEu8] + data + seq![crc_hi, crc_lo];
    let most = payload.take(514);
    lemma_payload_collects(c, payload, 514);
    assert(payload =~= most.push(crc_lo));
    lemma_feed_one(c, most, crc_lo);
    assert(polls(514).push(0xFF) =~= polls(515));
    assert(most.push(crc_lo).subrange(1, 513) =~= data);
    assert(c.fed_all(payload) =~= (CardState {
        write_pending: false,
        storage: c.storage_with_block(c.write_lba, data),
        out: seq![0x05u8],
        busy: 2,
        ..c
    }));
}

/// A card that has stored a block answers `0x05`, holds the bus low for two bytes
/// and is ready again.
#[verifier::spinoff_prover]
#[verifier::rlimit(60)]
proof fn lemma_programmed(ready: CardState)
    requires
        ready.ready(),
    ensures
        ({
            let d = CardState { out: seq![0x05u8], busy: 2, ..ready };
            &&& d.miso_all(polls(4)) == seq![0x05u8, 0x00, 0x00, 0xFF]
            &&& d.fed_all(polls(4)) == ready
        }),
{
    let d = CardState { out: seq![0x05u8], busy: 2, ..ready };
    let d1 = CardState { busy: 2, ..ready };
    let d2 = CardState { busy: 1, ..ready };
    lemma_poll_opens_no_frame();
    assert(d.fed(0xFF) =~= d1);
    assert(d1.fed(0xFF) =~= d2);
    assert(d2.fed(0xFF) =~= ready);
    assert(ready.fed(0xFF) =~= ready);
    assert(polls(0) =~= Seq::<u8>::empty());
    assert(polls(1) =~= polls(0).push(0xFF));
    assert(polls(2) =~= polls(1).push(0xFF));
    assert(polls(3) =~= polls(2).push(0xFF));
    assert(polls(4) =~= polls(3).push(0xFF));
    lemma_feed_one(d, polls(0), 0xFF);
    lemma_feed_one(d, polls(1), 0xFF);
    lemma_feed_one(d, polls(2), 0xFF);
    lemma_feed_one(d, polls(3), 0xFF);
    assert(d.miso_all(polls(4)) =~= seq![0x05u8, 0x00, 0x00, 0xFF]);
}

/// A write command is answered by `0x00` and arms the write.
#[verifier::spinoff_prover]
#[verifier::rlimit(60)]
proof fn lemma_write_armed(c: CardState, lba: u32, crc: u8)
    requires
        c.ready(),
    ensures
        c.miso_all(frame(24, lba, crc)) == polls(6),
        c.fed_all(frame(24, lba, crc)).miso_all(polls(1)) == seq![0x00u8],
        c.fed_all(frame(24, lba, crc)).fed_all(polls(1)) == (CardState { app: false, ..c }).armed(
            lba,
            false,
        ),
{
    let commanded = c.fed_all(frame(24, lba, crc));
    lemma_frame(c, 24, lba, crc);
    let armed = (CardState { app: false, ..c }).armed(lba, false);
    assert(commanded =~= (CardState { out: seq![0x00u8], ..armed }));
    assert(polls(0) =~= Seq::<u8>::empty());
    assert(polls(1) =~= polls(0).push(0xFF));
    lemma_feed_one(commanded, polls(0), 0xFF);
    assert(commanded.fed(0xFF) =~= armed);
    assert(commanded.miso_all(polls(1)) =~= seq![0x00u8]);
}

/// A read command is answered by `0x00` and the block's packet.
#[verifier::spinoff_prover]
#[verifier::rlimit(60)]
proof fn lemma_read_answered(c: CardState, lba: u32, crc: u8)
    requires
        c.ready(),
    ensures
        c.miso_all(frame(17, lba, crc)) == polls(6),
        c.fed_all(frame(17, lba, crc)).miso_all(polls(516)) == seq![0x00u8, 0xFE] + c.block(lba)
            + be_half(crc16(c.block(lba))),
        c.fed_all(frame(17, lba, crc)).fed_all(polls(516)) == (CardState { app: false, ..c }),
{
    let data = c.block(lba);
    let asked = c.fed_all(frame(17, lba, crc));
    let after = CardState { app: false, ..c };
    lemma_frame(c, 17, lba, crc);
    assert(after.staging(seq![0x00u8]).block(lba) =~= data);
    let answer = seq![0x00u8, 0xFE] + data + be_half(crc16(data));
    assert(after.out + seq![0x00u8] + packet(data) =~= answer);
    assert(asked =~= (CardState { out: answer, ..after }));
    assert((CardState { out: Seq::empty(), ..asked }) =~= after);
    lemma_polled(asked, 516);
    assert(answer.take(516) =~= answer);
    assert(answer.skip(516) =~= after.out);
}

/// A written block holds the data, and every other one what it held.
proof fn lemma_written_blocks(c: CardState, d: CardState, lba: u32, data: Seq<u8>, other: u32)
    requires
        data.len() == BLOCK_BYTES,
        lba * 512 + 512 <= c.storage.len(),
        other != lba,
        d.storage == c.storage_with_block(lba, data),
    ensures
        d.block(lba) == data,
        d.block(other) == c.block(other),
{
    assert(d.block(lba) =~= data);
    assert(d.block(other) =~= c.block(other));
}

/// A block write and its read-back, byte by byte. A ready card takes the write
/// command in silence and answers `0x00`; it takes the token, the data and the
/// CRC in silence, answers `0x05`, holds the bus low for two bytes and releases
/// it. The read command for that block is then answered by `0x00`, the token,
/// the data and their CRC-16, and the card is ready again. Every other block
/// keeps its contents.
#[verifier::spinoff_prover]
#[verifier::rlimit(60)]
pub proof fn law_block_exchange(
    c: CardState,
    lba: u32,
    data: Seq<u8>,
    crc: (u8, u8),
    crc7: (u8, u8),
    other: u32,
)
    requires
        c.ready(),
        data.len() == BLOCK_BYTES,
        lba * 512 + 512 <= c.storage.len(),
        other != lba,
    ensures
        ({
            let payload = seq![0xFEu8] + data + seq![crc.0, crc.1];
            let commanded = c.fed_all(frame(24, lba, crc7.0));
            let armed = commanded.fed_all(polls(1));
            let written = armed.fed_all(payload);
            let released = written.fed_all(polls(4));
            let asked = released.fed_all(frame(17, lba, crc7.1));
            let read = asked.fed_all(polls(516));
            &&& c.miso_all(frame(24, lba, crc7.0)) == polls(6)
            &&& commanded.miso_all(polls(1)) == seq![0x00u8]
            &&& armed.miso_all(payload) == polls(515)
            &&& written.miso_all(polls(4)) == seq![0x05u8, 0x00, 0x00, 0xFF]
            &&& released.miso_all(frame(17, lba, crc7.1)) == polls(6)
            &&& asked.miso_all(polls(516)) == seq![0x00u8, 0xFE] + data + be_half(crc16(data))
            &&& read.ready()
            &&& read.block(lba) == data
            &&& read.block(other) == c.block(other)
        }),
{
    lemma_write_armed(c, lba, crc7.0);
    let armed = (CardState { app: false, ..c }).armed(lba, false);
    lemma_payload_stored(armed, data, crc.0, crc.1);
    let released = CardState {
        write_pending: false,
        storage: armed.storage_with_block(lba, data),
        ..armed
    };
    assert(armed.storage_with_block(lba, data) =~= c.storage_with_block(lba, data));
    lemma_programmed(released);
    lemma_read_answered(released, lba, crc7.1);
    lemma_written_blocks(c, released, lba, data, other);
    lemma_written_blocks(c, CardState { app: false, ..released }, lba, data, other);
}

/// The first `k` bytes of a payload that is sampled.
proof fn lemma_payload_sampled(c: CardState, payload: Seq<u8>, k: nat)
    requires
        c.write.len() == 0,
        payload.len() == PAYLOAD_BYTES,
        payload[0] == 0xFE,
        1 <= k < PAYLOAD_BYTES,
    ensures
        c.writing_all(payload.take(k as int)) == (CardState {
            write_pending: false,
            write: payload.take(k as int),
            ..c
        }),
    decreases k,
{
    let before = payload.take(k - 1);
    assert(payload.take(k as int) =~= before.push(payload[k - 1]));
    assert(before.push(payload[k - 1]).drop_last() =~= before);
    if k == 1 {
        assert(before =~= Seq::<u8>::empty());
        assert(payload.take(1) =~= seq![0xFEu8]);
        assert(c.writing_all(before) == c);
    } else {
        lemma_payload_sampled(c, payload, (k - 1) as nat);
    }
    let last = payload.take(k as int);
    assert(last.drop_last() =~= before && last.last() == payload[k - 1]);
    assert(c.writing_all(last) == c.writing_all(before).writing(payload[k - 1]));
    assert(c.writing_all(last) =~= (CardState { write_pending: false, write: last, ..c }));
}

/// A block write takes a token, the data and two CRC bytes: the data become the
/// block that the command named, the acceptance token is staged and the card is
/// busy for two bytes. A card that waits for a payload with nothing staged samples
/// every byte of it so.
#[verifier::spinoff_prover]
#[verifier::rlimit(60)]
pub proof fn law_payload_becomes_the_block(c: CardState, data: Seq<u8>, crc_hi: u8, crc_lo: u8)
    requires
        c.write.len() == 0,
        data.len() == BLOCK_BYTES,
    ensures
        ({
            let payload = seq![0xFEu8] + data + seq![crc_hi, crc_lo];
            &&& c.writing_all(payload) == (CardState {
                write_pending: false,
                storage: c.storage_with_block(c.write_lba, data),
                write_lba: if c.write_multi {
                    c.write_lba.wrapping_add(1)
                } else {
                    c.write_lba
                },
                out: c.out.push(0x05),
                busy: 2,
                ..c
            })
            &&& c.write_pending && (CardState { write_pending: false, ..c }).ready() ==> c.fed_all(
                payload,
            ) == c.writing_all(payload)
        }),
{
    let payload = seq![0xFEu8] + data + seq![crc_hi, crc_lo];
    let most = payload.take(514);
    lemma_payload_sampled(c, payload, 514);
    assert(payload =~= most.push(crc_lo));
    assert(most.push(crc_lo).drop_last() =~= most);
    assert(most.push(crc_lo).subrange(1, 513) =~= data);
    assert(c.writing_all(payload) =~= (CardState {
        write_pending: false,
        storage: c.storage_with_block(c.write_lba, data),
        write_lba: if c.write_multi {
            c.write_lba.wrapping_add(1)
        } else {
            c.write_lba
        },
        out: c.out.push(0x05),
        busy: 2,
        ..c
    }));
    if c.write_pending && (CardState { write_pending: false, ..c }).ready() {
        lemma_payload_stored(c, data, crc_hi, crc_lo);
        assert(c.out.push(0x05) =~= seq![0x05u8]);
    }
}

/// The byte driven on a transfer does not depend on the byte that it carries:
/// a command is answered on a later byte at the earliest.
pub proof fn law_response_follows_command(c: CardState, prefix: Seq<u8>, a: u8, b: u8)
    ensures
        c.miso_all(prefix.push(a)) == c.miso_all(prefix.push(b)),
{
    assert(prefix.push(a).drop_last() =~= prefix);
    assert(prefix.push(b).drop_last() =~= prefix);
}

/// The 512 bytes of the card from block `lba` on.
pub open spec fn raw_block(c: CardState, lba: int) -> Seq<u8> {
    c.storage.subrange(512 * lba, 512 * lba + 512)
}

/// Polls of a card in a multi-block read take the staged bytes in order.
proof fn lemma_polled_multi(c: CardState, n: nat)
    requires
        (CardState { out: Seq::empty(), read_multi: false, ..c }).ready(),
        c.read_multi,
        n <= c.out.len(),
    ensures
        c.fed_all(polls(n)) == (CardState { out: c.out.skip(n as int), ..c }),
        c.miso_all(polls(n)) == c.out.take(n as int),
    decreases n,
{
    lemma_poll_opens_no_frame();
    if n == 0 {
        assert(polls(0) =~= Seq::<u8>::empty());
        assert(c.out.skip(0) =~= c.out);
        assert(c.out.take(0) =~= Seq::<u8>::empty());
    } else {
        let m = (n - 1) as nat;
        lemma_polled_multi(c, m);
        assert(polls(n) =~= polls(m).push(0xFF));
        lemma_feed_one(c, polls(m), 0xFF);
        assert(c.out.skip(m as int).skip(1) =~= c.out.skip(n as int));
        assert(c.out.take(n as int) =~= c.out.take(m as int).push(c.out[m as int]));
    }
}

/// A run in two parts.
proof fn lemma_feed_parts(c: CardState, a: Seq<u8>, b: Seq<u8>)
    ensures
        c.fed_all(a + b) == c.fed_all(a).fed_all(b),
        c.miso_all(a + b) == c.miso_all(a) + c.fed_all(a).miso_all(b),
    decreases b.len(),
{
    if b.len() == 0 {
        assert(a + b =~= a);
        assert(c.miso_all(a) + Seq::<u8>::empty() =~= c.miso_all(a));
    } else {
        lemma_feed_parts(c, a, b.drop_last());
        assert((a + b).drop_last() =~= a + b.drop_last());
        assert(c.miso_all(a + b) =~= c.miso_all(a) + c.fed_all(a).miso_all(b));
    }
}

/// One packet of a multi-block read: it is staged when the card is polled for it.
#[verifier::spinoff_prover]
#[verifier::rlimit(60)]
proof fn lemma_next_packet(c: CardState)
    requires
        (CardState { read_multi: false, ..c }).ready(),
        c.read_multi,
        c.read_lba < 0xFFFF_FFFF,
    ensures
        c.miso_all(polls(515)) == packet(c.block(c.read_lba)),
        c.fed_all(polls(515)) == (CardState { read_lba: (c.read_lba + 1) as u32, ..c }),
{
    lemma_poll_opens_no_frame();
    let p = packet(c.block(c.read_lba));
    let staged = CardState { read_lba: (c.read_lba + 1) as u32, out: p, ..c };
    assert(c.out + p =~= p);
    assert(c.refilled() =~= staged);
    assert(p.len() == 515);
    lemma_polled_multi(staged, 1);
    lemma_polled_multi(staged, 515);
    assert(staged.refilled() == staged);
    assert(polls(0) =~= Seq::<u8>::empty());
    assert(polls(1) =~= polls(0).push(0xFF));
    lemma_feed_one(c, polls(0), 0xFF);
    lemma_feed_one(staged, polls(0), 0xFF);
    assert(c.fed(0xFF) == staged.fed(0xFF));
    assert(c.miso() == staged.miso());
    assert(polls(515) =~= polls(1) + polls(514));
    lemma_feed_parts(c, polls(1), polls(514));
    lemma_feed_parts(staged, polls(1), polls(514));
    assert(c.miso_all(polls(1)) =~= staged.miso_all(polls(1)));
    assert(p.take(515) =~= p);
    assert(p.skip(515) =~= c.out);
}

/// A multi-block read from block `a`, before its first packet.
proof fn lemma_multi_read(c: CardState, a: u32, crc: u8, k: nat)
    requires
        c.ready(),
        a + k < 0xFFFF_FFFF,
    ensures
        ({
            let asked = c.fed_all(frame(18, a, crc));
            let at = asked.fed_all(polls((1 + 515 * k) as nat));
            &&& asked.miso_all(polls(1)) == seq![0x00u8]
            &&& at.miso_all(polls(515)) == packet(c.block((a + k) as u32))
            &&& at.fed_all(polls(515)) == (CardState {
                app: false,
                read_multi: true,
                read_lba: (a + k + 1) as u32,
                ..c
            })
        }),
    decreases k,
{
    let asked = c.fed_all(frame(18, a, crc));
    lemma_frame(c, 18, a, crc);
    let first = packet(c.block(a));
    assert(asked.out =~= seq![0x00u8] + first);
    if k == 0 {
        let at = CardState { out: first, ..asked };
        lemma_polled_multi(asked, 1);
        assert(asked.out.skip(1) =~= first);
        assert(asked.out.take(1) =~= seq![0x00u8]);
        lemma_polled_multi(at, 515);
        assert(first.take(515) =~= first);
        assert(first.skip(515) =~= c.out);
        assert(at.fed_all(polls(515)) =~= (CardState {
            app: false,
            read_multi: true,
            read_lba: (a + 1) as u32,
            ..c
        }));
    } else {
        let m = (k - 1) as nat;
        lemma_multi_read(c, a, crc, m);
        let before = asked.fed_all(polls((1 + 515 * m) as nat));
        assert(polls((1 + 515 * k) as nat) =~= polls((1 + 515 * m) as nat) + polls(515));
        lemma_feed_parts(asked, polls((1 + 515 * m) as nat), polls(515));
        let at = CardState { app: false, read_multi: true, read_lba: (a + k) as u32, ..c };
        assert(before.fed_all(polls(515)) == at);
        lemma_next_packet(at);
        assert(at.block(at.read_lba) =~= c.block((a + k) as u32));
    }
}

/// A multi-block read: after the command for block `a` a ready card answers `0x00`, and
/// then, as long as it is polled, one packet after the other: the token, the 512 bytes
/// of the card from block `a + k` on and their CRC-16, high byte first, for k = 0, 1, 2
/// and so on.
pub proof fn law_consecutive_blocks_are_read(c: CardState, a: u32, k: nat, crc: u8)
    requires
        c.ready(),
        a + k < 0xFFFF_FFFF,
        512 * (a + k) + 512 <= c.storage.len(),
    ensures
        ({
            let asked = c.fed_all(frame(18, a, crc));
            let at = asked.fed_all(polls((1 + 515 * k) as nat));
            let data = raw_block(c, a + k);
            let sum = crc16(data);
            &&& asked.miso_all(polls(1)) == seq![0x00u8]
            &&& at.miso_all(polls(515)) == seq![0xFEu8] + data + seq![
                ((sum >> 8) & 0xFF) as u8,
                (sum & 0xFF) as u8,
            ]
            &&& at.fed_all(polls(515)).storage == c.storage
        }),
{
    lemma_multi_read(c, a, crc, k);
    assert(c.block((a + k) as u32) =~= raw_block(c, a + k));
}

/// A single-block read: `0x00`, the token, the 512 bytes of the card from that block on
/// and their CRC-16, and the card is ready again.
pub proof fn law_block_is_read(c: CardState, a: u32, crc: u8)
    requires
        c.ready(),
        512 * a + 512 <= c.storage.len(),
    ensures
        ({
            let asked = c.fed_all(frame(17, a, crc));
            let data = raw_block(c, a as int);
            let sum = crc16(data);
            &&& asked.miso_all(polls(516)) == seq![0x00u8, 0xFEu8] + data + seq![
                ((sum >> 8) & 0xFF) as u8,
                (sum & 0xFF) as u8,
            ]
            &&& asked.fed_all(polls(516)) == (CardState { app: false, ..c })
        }),
{
    let asked = c.fed_all(frame(17, a, crc));
    lemma_frame(c, 17, a, crc);
    let data = raw_block(c, a as int);
    assert(c.block(a) =~= data);
    assert(asked.out =~= seq![0x00u8, 0xFEu8] + data + be_half(crc16(data)));
    lemma_polled(asked, 516);
    assert(asked.out.take(516) =~= asked.out);
    assert(asked.out.skip(516) =~= c.out);
}

/// A multi-block write from block `a`: the command is answered by `0x00`. Each payload
/// that follows (token `0xFC`, 512 bytes, two CRC bytes) is taken in silence, answered
/// by `0x05` and two busy bytes, and stands on the card from the current block on; the
/// next payload goes to the next block. The stop token ends it.
#[verifier::spinoff_prover]
#[verifier::rlimit(80)]
pub proof fn law_consecutive_blocks_are_written(c: CardState, data: Seq<u8>, crc: (u8, u8))
    requires
        (CardState { write_multi: false, write_pending: false, ..c }).ready(),
        c.write_multi,
        data.len() == 512,
        512 * c.write_lba + 512 <= c.storage.len(),
        c.write_lba < 0xFFFF_FFFF,
    ensures
        ({
            let payload = seq![0xFCu8] + data + seq![crc.0, crc.1];
            let after = c.fed_all(payload).fed_all(polls(4));
            &&& c.miso_all(payload) == polls(515)
            &&& c.fed_all(payload).miso_all(polls(4)) == seq![0x05u8, 0x00, 0x00, 0xFF]
            &&& after.storage.len() == c.storage.len()
            &&& raw_block(after, c.write_lba as int) == data
            &&& forall|i: int|
                0 <= i < c.storage.len() && !(512 * c.write_lba <= i < 512 * c.write_lba + 512)
                    ==> #[trigger] after.storage[i] == c.storage[i]
            &&& after == (CardState {
                write_lba: (c.write_lba + 1) as u32,
                write_pending: false,
                storage: after.storage,
                ..c
            })
        }),
        c.fed_all(seq![0xFDu8]) == (CardState { write_multi: false, write_pending: false, ..c }),
        c.miso_all(seq![0xFDu8]) == seq![0xFFu8],
{
    crate::bits::lemma_constants();
    let payload = seq![0xFCu8] + data + seq![crc.0, crc.1];
    let most = payload.take(514);
    lemma_multi_payload(c, payload, 514);
    assert(payload =~= most.push(crc.1));
    lemma_feed_one(c, most, crc.1);
    assert(polls(514).push(0xFF) =~= polls(515));
    assert(most.push(crc.1).subrange(1, 513) =~= data);
    let stored = CardState {
        write_pending: false,
        write_lba: (c.write_lba + 1) as u32,
        storage: c.storage_with_block(c.write_lba, data),
        out: seq![0x05u8],
        busy: 2,
        ..c
    };
    assert(c.out.push(0x05) =~= seq![0x05u8]);
    assert(c.fed_all(payload) =~= stored);
    lemma_programmed_multi(CardState { out: c.out, busy: 0, ..stored });
    let after = c.fed_all(payload).fed_all(polls(4));
    assert(raw_block(after, c.write_lba as int) =~= data);
    assert(seq![0xFDu8].drop_last() =~= Seq::<u8>::empty());
    assert(c.fed_all(Seq::<u8>::empty()) == c);
    lemma_feed_one(c, Seq::<u8>::empty(), 0xFD);
    assert(Seq::<u8>::empty().push(0xFDu8) =~= seq![0xFDu8]);
    assert(c.miso_all(Seq::<u8>::empty()) == Seq::<u8>::empty());
    assert(Seq::<u8>::empty().push(0xFFu8) =~= seq![0xFFu8]);
}

/// The multi-block write command arms the write at its block.
pub proof fn law_multi_write_starts_at_its_block(c: CardState, a: u32, crc: u8)
    requires
        c.ready(),
    ensures
        ({
            let asked = c.fed_all(frame(25, a, crc));
            &&& asked.miso_all(polls(1)) == seq![0x00u8]
            &&& asked.fed_all(polls(1)) == (CardState {
                app: false,
                write_lba: a,
                write_pending: true,
                write_multi: true,
                ..c
            })
        }),
{
    lemma_poll_opens_no_frame();
    lemma_frame(c, 25, a, crc);
    let asked = c.fed_all(frame(25, a, crc));
    assert(asked.out =~= seq![0x00u8]);
    assert(polls(0) =~= Seq::<u8>::empty());
    assert(polls(1) =~= polls(0).push(0xFF));
    lemma_feed_one(asked, polls(0), 0xFF);
    assert(asked.miso_all(polls(1)) =~= seq![0x00u8]);
    assert(asked.out.skip(1) =~= c.out);
    assert(asked.fed_all(polls(1)) =~= (CardState {
        app: false,
        write_lba: a,
        write_pending: true,
        write_multi: true,
        ..c
    }));
}

proof fn lemma_multi_payload(c: CardState, payload: Seq<u8>, k: nat)
    requires
        (CardState { write_multi: false, write_pending: false, ..c }).ready(),
        c.write_multi,
        payload.len() == PAYLOAD_BYTES,
        payload[0] == 0xFC,
        1 <= k < PAYLOAD_BYTES,
    ensures
        c.fed_all(payload.take(k as int)) == (CardState {
            write_pending: false,
            write: payload.take(k as int),
            ..c
        }),
        c.miso_all(payload.take(k as int)) == polls(k),
    decreases k,
{
    let before = payload.take(k - 1);
    assert(payload.take(k as int) =~= before.push(payload[k - 1]));
    lemma_feed_one(c, before, payload[k - 1]);
    if k == 1 {
        assert(before =~= Seq::<u8>::empty());
        assert(payload.take(1) =~= seq![0xFCu8]);
        assert(c.miso_all(payload.take(1)) =~= polls(1));
    } else {
        lemma_multi_payload(c, payload, (k - 1) as nat);
        assert(polls((k - 1) as nat).push(0xFF) =~= polls(k));
    }
}

#[verifier::spinoff_prover]
#[verifier::rlimit(60)]
proof fn lemma_programmed_multi(r: CardState)
    requires
        (CardState { write_multi: false, ..r }).ready(),
        r.write_multi,
    ensures
        ({
            let d = CardState { out: seq![0x05u8], busy: 2, ..r };
            &&& d.miso_all(polls(4)) == seq![0x05u8, 0x00, 0x00, 0xFF]
            &&& d.fed_all(polls(4)) == r
        }),
{
    let d = CardState { out: seq![0x05u8], busy: 2, ..r };
    let d1 = CardState { busy: 2, ..r };
    let d2 = CardState { busy: 1, ..r };
    lemma_poll_opens_no_frame();
    assert(d.fed(0xFF) =~= d1);
    assert(d1.fed(0xFF) =~= d2);
    assert(d2.fed(0xFF) =~= r);
    assert(r.fed(0xFF) =~= r);
    assert(polls(0) =~= Seq::<u8>::empty());
    assert(polls(1) =~= polls(0).push(0xFF));
    assert(polls(2) =~= polls(1).push(0xFF));
    assert(polls(3) =~= polls(2).push(0xFF));
    assert(polls(4) =~= polls(3).push(0xFF));
    lemma_feed_one(d, polls(0), 0xFF);
    lemma_feed_one(d, polls(1), 0xFF);
    lemma_feed_one(d, polls(2), 0xFF);
    lemma_feed_one(d, polls(3), 0xFF);
    assert(d.miso_all(polls(4)) =~= seq![0x05u8, 0x00, 0x00, 0xFF]);
}

/// What a ready card answers to a command, polled until it is silent again: the answer,
/// with nothing else of the card changed.
pub open spec fn answers(c: CardState, cmd: u8, arg: u32, crc: u8, answer: Seq<u8>) -> bool {
    let asked = c.fed_all(frame(cmd, arg, crc));
    &&& asked.miso_all(polls(answer.len())) == answer
    &&& asked.fed_all(polls(answer.len())) == (CardState { app: false, ..c })
}

/// Commands of a ready card that only ask: the voltage check echoes its argument, the
/// operating conditions tell a powered-up high-capacity card, the status is clear, and
/// the card-specific data come as a packet. Unknown commands are answered by `0x00`.
#[verifier::spinoff_prover]
#[verifier::rlimit(60)]
pub proof fn law_card_tells_about_itself(c: CardState, arg: u32, crc: u8)
    requires
        c.ready(),
    ensures
        answers(
            c,
            8,
            arg,
            crc,
            seq![
                0x00u8,
                crate::bytes::byte_lane(arg, 3),
                crate::bytes::byte_lane(arg, 2),
                crate::bytes::byte_lane(arg, 1),
                crate::bytes::byte_lane(arg, 0),
            ],
        ),
        answers(c, 58, arg, crc, seq![0x00u8, 0xC0, 0xFF, 0x80, 0x00]),
        answers(c, 13, arg, crc, seq![0x00u8, 0x00]),
        answers(c, 16, arg, crc, seq![0x00u8]),
        ({
            let csd = seq![
                0x40u8,
                0x0E,
                0x00,
                0x5A,
                0x43,
                0x59,
                0x00,
                0x00,
                0x00,
                0x07,
                0x7F,
                0x80,
                0x0A,
                0x40,
                0x00,
                0x01,
            ];
            answers(
                c,
                9,
                arg,
                crc,
                seq![0x00u8, 0xFE] + csd + seq![
                    ((crc16(csd) >> 8) & 0xFF) as u8,
                    (crc16(csd) & 0xFF) as u8,
                ],
            )
        }),
{
    lemma_answer(c, 8, arg, crc);
    lemma_answer(c, 58, arg, crc);
    lemma_answer(c, 13, arg, crc);
    lemma_answer(c, 16, arg, crc);
    lemma_answer(c, 9, arg, crc);
    lemma_constant_lanes();
    let csd = seq![
        0x40u8,
        0x0E,
        0x00,
        0x5A,
        0x43,
        0x59,
        0x00,
        0x00,
        0x00,
        0x07,
        0x7F,
        0x80,
        0x0A,
        0x40,
        0x00,
        0x01,
    ];
    assert(csd_bytes() =~= csd);
    assert(seq![0x00u8] + packet(csd) =~= seq![0x00u8, 0xFE] + csd + seq![
        ((crc16(csd) >> 8) & 0xFF) as u8,
        (crc16(csd) & 0xFF) as u8,
    ]);
    assert(seq![0x00u8] + be_bytes(arg) =~= seq![
        0x00u8,
        crate::bytes::byte_lane(arg, 3),
        crate::bytes::byte_lane(arg, 2),
        crate::bytes::byte_lane(arg, 1),
        crate::bytes::byte_lane(arg, 0),
    ]);
    assert(seq![0x00u8] + be_bytes(0xC0FF_8000) =~= seq![0x00u8, 0xC0, 0xFF, 0x80, 0x00]);
    assert(c.out + seq![0x00u8] =~= seq![0x00u8]);
    assert(c.out + seq![0x00u8, 0x00u8] =~= seq![0x00u8, 0x00]);
}

/// A command that only stages an answer.
proof fn lemma_answer(c: CardState, cmd: u8, arg: u32, crc: u8)
    requires
        c.ready(),
        cmd < 0x40,
        (CardState { app: false, ..c }).commanded(cmd, arg, c.app) == (CardState {
            app: false,
            out: (CardState { app: false, ..c }).commanded(cmd, arg, c.app).out,
            ..c
        }),
    ensures
        answers(c, cmd, arg, crc, (CardState { app: false, ..c }).commanded(cmd, arg, c.app).out),
        cmd == 8 ==> answers(c, cmd, arg, crc, seq![0x00u8] + be_bytes(arg)),
        cmd == 58 ==> answers(c, cmd, arg, crc, seq![0x00u8] + be_bytes(0xC0FF_8000)),
        cmd == 9 ==> answers(c, cmd, arg, crc, seq![0x00u8] + packet(csd_bytes())),
{
    lemma_frame(c, cmd, arg, crc);
    let asked = c.fed_all(frame(cmd, arg, crc));
    lemma_polled(asked, asked.out.len());
    assert(asked.out.take(asked.out.len() as int) =~= asked.out);
    assert(asked.out.skip(asked.out.len() as int) =~= c.out);
    assert(c.out =~= Seq::<u8>::empty());
    assert(c.out + (seq![0x00u8] + be_bytes(arg)) =~= seq![0x00u8] + be_bytes(arg));
    assert(c.out + (seq![0x00u8] + be_bytes(0xC0FF_8000)) =~= seq![0x00u8] + be_bytes(
        0xC0FF_8000,
    ));
    assert(c.out + (seq![0x00u8] + packet(csd_bytes())) =~= seq![0x00u8] + packet(csd_bytes()));
}

/// Lanes of the constant registers.
proof fn lemma_constant_lanes()
    by (bit_vector)
    ensures
        ((0xC0FF_8000u32 >> 24) & 0xFF) as u8 == 0xC0,
        ((0xC0FF_8000u32 >> 16) & 0xFF) as u8 == 0xFF,
        ((0xC0FF_8000u32 >> 8) & 0xFF) as u8 == 0x80,
        ((0xC0FF_8000u32 >> 0) & 0xFF) as u8 == 0x00,
        ((0x400E_005Au32 >> 24) & 0xFF) as u8 == 0x40,
        ((0x400E_005Au32 >> 16) & 0xFF) as u8 == 0x0E,
        ((0x400E_005Au32 >> 8) & 0xFF) as u8 == 0x00,
        ((0x400E_005Au32 >> 0) & 0xFF) as u8 == 0x5A,
        ((0x4359_0000u32 >> 24) & 0xFF) as u8 == 0x43,
        ((0x4359_0000u32 >> 16) & 0xFF) as u8 == 0x59,
        ((0x4359_0000u32 >> 8) & 0xFF) as u8 == 0x00,
        ((0x4359_0000u32 >> 0) & 0xFF) as u8 == 0x00,
        ((0x0007_7F80u32 >> 24) & 0xFF) as u8 == 0x00,
        ((0x0007_7F80u32 >> 16) & 0xFF) as u8 == 0x07,
        ((0x0007_7F80u32 >> 8) & 0xFF) as u8 == 0x7F,
        ((0x0007_7F80u32 >> 0) & 0xFF) as u8 == 0x80,
        ((0x0A40_0001u32 >> 24) & 0xFF) as u8 == 0x0A,
        ((0x0A40_0001u32 >> 16) & 0xFF) as u8 == 0x40,
        ((0x0A40_0001u32 >> 8) & 0xFF) as u8 == 0x00,
        ((0x0A40_0001u32 >> 0) & 0xFF) as u8 == 0x01,
{
}

} // verus!
