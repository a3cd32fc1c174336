//! The virtual network: events for the firmware's event loops, records of access
//! points, and the answers to intercepted calls.

use super::{Soc, SocState};
use crate::bytes::lane;
use crate::memmap::{WIFI_ARD_POOL, WIFI_SCRATCH};
use crate::scan_fixture::{FixtureAp, ScanFixtureAp};
use crate::wifi_host::HostState;
use super::rtos::{TASK_SCAN_END, TASK_SCAN_START};
use vstd::prelude::*;

verus! {

broadcast use crate::soc::sizes::lemma_sized;

/// Size of the scratch area for event data, and of a slot in it.
pub const SCRATCH_SIZE: u32 = 0x858;

pub const SCRATCH_SLOT: u32 = 64;

/// Size and number of the event blocks.
pub const WIFI_ARD_SLOT: u32 = 192;

pub const WIFI_ARD_SLOTS: u32 = 4;

/// Start of the name of the application event task.
pub const ARDUINO_NAME: [u8; 8] = [0x61, 0x72, 0x64, 0x75, 0x69, 0x6E, 0x6F, 0x5F];

/// Size of an access-point record.
pub const REC_SIZE: u32 = 92;

/// Event number of a finished scan.
pub const SCAN_DONE_ID: u32 = 1;

/// Byte `k` of an event-loop item: flags, event base, event number, value.
pub open spec fn event_byte(set: bool, base: u32, id: u32, val: u32, k: int) -> u8 {
    if k == 1 && set {
        1
    } else if 4 <= k < 8 {
        crate::bytes::byte_lane(base, (k - 4) as u32)
    } else if 8 <= k < 12 {
        crate::bytes::byte_lane(id, (k - 8) as u32)
    } else if 12 <= k < 16 {
        crate::bytes::byte_lane(val, (k - 12) as u32)
    } else {
        0
    }
}

/// An event-loop item.
pub open spec fn event_item(set: bool, base: u32, id: u32, val: u32) -> Seq<u8> {
    Seq::new(16, |k: int| event_byte(set, base, id, val, k))
}

/// Length of the SSID as stored.
pub open spec fn ssid_stored(ap: FixtureAp) -> int {
    if ap.ssid_len <= 32 {
        ap.ssid_len as int
    } else {
        32
    }
}

/// Byte `k` of the access-point record that the hooks answer with: BSSID, SSID,
/// channel, signal strength, WPA2 with CCMP.
pub open spec fn record_byte(ap: FixtureAp, k: int) -> u8 {
    if 0 <= k < 6 {
        ap.bssid[k]
    } else if 6 <= k < 6 + ssid_stored(ap) {
        ap.ssid[k - 6]
    } else if k == 39 {
        ap.chan
    } else if k == 44 {
        ap.rssi as u8
    } else if k == 48 {
        3
    } else if k == 52 || k == 56 {
        4
    } else {
        0
    }
}

/// Byte `k` of the interface address: address, mask 255.255.255.0, gateway
/// 192.168.4.1.
pub open spec fn ip_byte(ip: Seq<u8>, k: int) -> u8 {
    if 0 <= k < 4 {
        ip[k]
    } else if 4 <= k < 7 {
        255
    } else if k == 8 {
        192
    } else if k == 9 {
        168
    } else if k == 10 {
        4
    } else if k == 11 {
        1
    } else {
        0
    }
}

impl SocState {
    /// The chip with another host side.
    pub open spec fn with_host(self, host: HostState) -> SocState {
        SocState { host: host, ..self }
    }

    /// The first `n` bytes of `bytes` are written from `base` on.
    pub open spec fn bytes_written(self, base: u32, bytes: Seq<u8>, n: nat) -> SocState
        decreases n,
    {
        if n == 0 {
            self
        } else {
            self.bytes_written(base, bytes, (n - 1) as nat).write8(
                base.wrapping_add((n - 1) as u32),
                bytes[n - 1] as u32,
            )
        }
    }

    /// `n` bytes are read from `base` on.
    pub open spec fn bytes_read(self, base: u32, n: nat) -> (Seq<u8>, SocState)
        decreases n,
    {
        if n == 0 {
            (Seq::empty(), self)
        } else {
            let (b, s) = self.bytes_read(base, (n - 1) as nat);
            let a = base.wrapping_add((n - 1) as u32);
            (b.push(s.read8(a) as u8), s.after_read8(a))
        }
    }

    /// Queue that the event loop task waits on, where it takes event items and
    /// the task is waiting.
    pub open spec fn loop_ready(self) -> (Option<u32>, SocState) {
        let queue = self.event_queue();
        if queue == 0 {
            (None, self)
        } else {
            let isz = self.read32(queue.wrapping_add(64));
            let s1 = self.after_read32(queue.wrapping_add(64));
            if isz != 16 || !s1.recv_waiting(queue) {
                (None, if isz != 16 {
                    s1
                } else {
                    s1.after_recv_waiting(queue)
                })
            } else {
                (Some(queue), s1.after_recv_waiting(queue))
            }
        }
    }

    /// An item is sent to `queue` and its waiting task is woken.
    pub open spec fn delivered(self, queue: u32, item: Seq<u8>) -> (Option<u32>, SocState) {
        let (sent, s) = self.posted(queue, item);
        if sent {
            s.receiver_unblocked(queue)
        } else {
            (None, s)
        }
    }

    /// An event without data is posted to the event loop. Nothing is sent while
    /// the loop's task is not waiting.
    pub open spec fn event_posted(self, base_var: u32, id: u32) -> (Option<u32>, SocState) {
        let queue = self.event_queue();
        if queue == 0 {
            (None, self)
        } else {
            let isz = self.read32(queue.wrapping_add(64));
            let s1 = self.after_read32(queue.wrapping_add(64));
            if isz != 16 {
                (None, s1)
            } else {
                let base = s1.read32(base_var);
                let s2 = s1.after_read32(base_var);
                let s3 = s2.after_recv_waiting(queue);
                if s2.recv_waiting(queue) {
                    s3.delivered(queue, event_item(false, base, id, 0))
                } else {
                    (None, s3)
                }
            }
        }
    }

    /// First scratch slot from `slot` on whose first word is 0; past the last
    /// whole slot where none is.
    pub open spec fn scratch_slot(self, slot: u32) -> u32
        decreases SCRATCH_SIZE + 64 - slot,
    {
        if slot + SCRATCH_SLOT > SCRATCH_SIZE {
            slot
        } else if self.mem.word((WIFI_SCRATCH + slot) as u32) == 0 {
            slot
        } else {
            self.scratch_slot((slot + SCRATCH_SLOT) as u32)
        }
    }

    /// An event with data is posted to the event loop: the data goes to a free
    /// scratch slot and the item points there. Nothing is written while the
    /// loop's task is not waiting or the data does not fit.
    pub open spec fn event_data_posted(self, base_var: u32, id: u32, payload: Seq<u8>) -> (
        Option<u32>,
        SocState,
    ) {
        let (queue, s1) = self.loop_ready();
        let slot = s1.scratch_slot(0);
        if queue is None || slot + payload.len() > SCRATCH_SIZE {
            (None, s1)
        } else {
            let buf = (WIFI_SCRATCH + slot) as u32;
            let s2 = s1.bytes_written(buf, payload, payload.len());
            let q = s2.event_queue();
            if q == 0 {
                (None, s2)
            } else {
                let base = s2.read32(base_var);
                s2.after_read32(base_var).delivered(q, event_item(true, base, id, buf))
            }
        }
    }

    /// An access-point record is written to slot `index` of the buffer `out`.
    pub open spec fn record_written(self, out: u32, index: u32, ap: FixtureAp) -> SocState {
        let base = out.wrapping_add(index.wrapping_mul(REC_SIZE));
        let n = ssid_stored(ap);
        self.bytes_written(base, ap.bssid, 6).bytes_written(
            base.wrapping_add(6),
            ap.ssid,
            n as nat,
        ).write8(base.wrapping_add(6).wrapping_add(n as u32), 0).write8(
            base.wrapping_add(39),
            ap.chan as u32,
        ).write32(base.wrapping_add(40), 0).write8(
            base.wrapping_add(44),
            (ap.rssi as u8) as u32,
        ).write32(base.wrapping_add(48), 3).write32(base.wrapping_add(52), 4).write32(
            base.wrapping_add(56),
            4,
        ).write32(base.wrapping_add(60), 0).write32(base.wrapping_add(64), 0)
    }

    /// Station interface of the firmware; 0 while it is not there.
    pub open spec fn sta_netif(self) -> (u32, SocState) {
        match self.host.network {
            None => (0, self),
            Some(cell) => {
                let inst = self.read32(cell);
                let s1 = self.after_read32(cell);
                if !crate::soc::rtos::in_dram(inst) {
                    (0, s1)
                } else {
                    let netif = s1.read32(inst.wrapping_add(4));
                    (
                        if crate::soc::rtos::in_dram(netif) {
                            netif
                        } else {
                            0
                        },
                        s1.after_read32(inst.wrapping_add(4)),
                    )
                }
            },
        }
    }

    /// Task that waits at the application event queue that may stand at `addr`:
    /// 32 pointers long, and its first waiter's name right. The storage bounds
    /// say nothing before the queue has wrapped once.
    pub open spec fn ard_waiter_at(self, addr: u32) -> (Option<u32>, SocState) {
        let len = self.read32(addr.wrapping_add(60));
        let s1 = self.after_read32(addr.wrapping_add(60));
        if len != 32 {
            (None, s1)
        } else {
            let isz = s1.read32(addr.wrapping_add(64));
            let s2 = s1.after_read32(addr.wrapping_add(64));
            if isz != 4 {
                (None, s2)
            } else {
                let item = s2.read32(addr.wrapping_add(48));
                let s3 = s2.after_read32(addr.wrapping_add(48));
                if item == addr.wrapping_add(44) || item == 0 {
                    (None, s3)
                } else {
                    let owner = s3.read32(item.wrapping_add(12));
                    let (name, s4) = s3.after_read32(item.wrapping_add(12)).bytes_read(
                        owner.wrapping_add(52),
                        8,
                    );
                    (
                        if name == ARDUINO_NAME@ {
                            Some(owner)
                        } else {
                            None
                        },
                        s4,
                    )
                }
            }
        }
    }

    /// The application event queue is searched from `addr` on.
    pub open spec fn ard_from(self, addr: u32) -> (u32, SocState)
        decreases TASK_SCAN_END + 4 - addr,
    {
        if addr >= TASK_SCAN_END {
            (0, self)
        } else {
            let (waiter, s) = self.ard_waiter_at(addr);
            match waiter {
                Some(owner) => (
                    addr,
                    s.with_host(
                        HostState {
                            ard_queue: Some(addr),
                            ard_waiter: Some(owner),
                            ..s.host
                        },
                    ),
                ),
                None => s.ard_from((addr + 4) as u32),
            }
        }
    }

    /// The application event queue: the one found before, else searched. 0 while
    /// there is none.
    pub open spec fn ard_queue(self) -> (u32, SocState) {
        match self.host.ard_queue {
            Some(q) => (q, self),
            None => self.ard_from(TASK_SCAN_START),
        }
    }

    /// The application event queue is there and empty.
    pub open spec fn ard_idle(self) -> (bool, SocState) {
        let (q, s) = self.ard_queue();
        if self.host.ard_queue is None && q == 0 {
            (false, s)
        } else {
            (s.read32(q.wrapping_add(56)) == 0, s.after_read32(q.wrapping_add(56)))
        }
    }

    /// The application event queue is ready for a post: its task waits, it has
    /// room for a pointer and storage, and an event block is left. Its message
    /// count and storage bounds come along.
    pub open spec fn ard_ready(self, queue: u32) -> (Option<(u32, u32, u32)>, SocState) {
        let s1 = self.after_recv_waiting(queue);
        if !self.recv_waiting(queue) {
            (None, s1)
        } else {
            let len = s1.read32(queue.wrapping_add(60));
            let s2 = s1.after_read32(queue.wrapping_add(60));
            let isz = s2.read32(queue.wrapping_add(64));
            let s3 = s2.after_read32(queue.wrapping_add(64));
            let mw = s3.read32(queue.wrapping_add(56));
            let s4 = s3.after_read32(queue.wrapping_add(56));
            if mw >= len || isz != 4 || s4.host.ard_slot >= WIFI_ARD_SLOTS {
                (None, s4)
            } else {
                let head = s4.read32(queue);
                let s5 = s4.after_read32(queue);
                let tail = s5.read32(queue.wrapping_add(8));
                let s6 = s5.after_read32(queue.wrapping_add(8));
                if head == 0 || tail == 0 {
                    (None, s6)
                } else {
                    (Some((mw, head, tail)), s6)
                }
            }
        }
    }

    /// An event block is written into the next free block.
    pub open spec fn block_written(self, id: u32, info: Seq<u8>) -> SocState {
        let ev = (WIFI_ARD_POOL + self.host.ard_slot * WIFI_ARD_SLOT) as u32;
        self.with_host(
            HostState { ard_slot: (self.host.ard_slot + 1) as u32, ..self.host },
        ).write32(ev, id).bytes_written(ev.wrapping_add(4), info, info.len())
    }

    /// The pointer `ev` is put into the queue.
    pub open spec fn pointer_queued(self, queue: u32, ev: u32, mw: u32, head: u32, tail: u32) -> SocState {
        let wr = self.read32(queue.wrapping_add(4));
        let next = wr.wrapping_add(4);
        self.after_read32(queue.wrapping_add(4)).bytes_written(wr, pointer_bytes(ev), 4).write32(
            queue.wrapping_add(4),
            if next >= tail {
                head
            } else {
                next
            },
        ).write32(queue.wrapping_add(56), mw.wrapping_add(1))
    }

    /// An event is posted to the application event queue, and the waiting task
    /// is woken and made ready. A post that cannot be made uses nothing up.
    pub open spec fn ard_posted(self, id: u32, info: Seq<u8>, lists: u32, top: u32) -> (
        bool,
        SocState,
    ) {
        let (queue, s1) = self.ard_queue();
        if queue == 0 {
            (false, s1)
        } else {
            let (ready, s2) = s1.ard_ready(queue);
            match ready {
                None => (false, s2),
                Some((mw, head, tail)) => {
                    let ev = (WIFI_ARD_POOL + s2.host.ard_slot * WIFI_ARD_SLOT) as u32;
                    let (woken, s3) = s2.block_written(id, info).pointer_queued(
                        queue,
                        ev,
                        mw,
                        head,
                        tail,
                    ).receiver_unblocked(queue);
                    match woken {
                        None => (false, s3),
                        Some(t) => (true, s3.readied(t, lists, top)),
                    }
                },
            }
        }
    }
}

/// The bytes of a pointer.
pub open spec fn pointer_bytes(p: u32) -> Seq<u8> {
    Seq::new(4, |k: int| crate::bytes::byte_lane(p, k as u32))
}

/// `ptr` is one of the event blocks.
pub open spec fn event_block(ptr: u32) -> bool {
    ptr == WIFI_ARD_POOL || ptr == WIFI_ARD_POOL + 192 || ptr == WIFI_ARD_POOL + 384 || ptr
        == WIFI_ARD_POOL + 576
}

fn event_byte_of(set: bool, base: u32, id: u32, val: u32, k: usize) -> (b: u8)
    ensures
        b == event_byte(set, base, id, val, k as int),
{
    if k == 1 && set {
        1
    } else if 4 <= k && k < 8 {
        lane(base, k as u32 - 4)
    } else if 8 <= k && k < 12 {
        lane(id, k as u32 - 8)
    } else if 12 <= k && k < 16 {
        lane(val, k as u32 - 12)
    } else {
        0
    }
}

fn build_event(set: bool, base: u32, id: u32, val: u32) -> (item: [u8; 16])
    ensures
        item@ == event_item(set, base, id, val),
{
    let mut item: [u8; 16] = [0u8; 16];
    let mut k: usize = 0;
    while k < 16
        invariant
            k <= 16,
            forall|i: int| 0 <= i < k ==> item@[i] == event_byte(set, base, id, val, i),
        decreases 16 - k,
    {
        item[k] = event_byte_of(set, base, id, val, k);
        k = k + 1;
    }
    assert(item@ =~= event_item(set, base, id, val));
    item
}

fn ssid_len_of(ap: &ScanFixtureAp) -> (n: usize)
    ensures
        n == ssid_stored(ap@),
{
    if ap.ssid_len <= 32 {
        ap.ssid_len as usize
    } else {
        32
    }
}

pub fn record_byte_of(ap: &ScanFixtureAp, k: usize) -> (b: u8)
    ensures
        b == record_byte(ap@, k as int),
{
    let n: usize = ssid_len_of(ap);
    if k < 6 {
        ap.bssid[k]
    } else if 6 <= k && k < 6 + n {
        ap.ssid[k - 6]
    } else if k == 39 {
        ap.chan
    } else if k == 44 {
        ap.rssi as u8
    } else if k == 48 {
        3
    } else if k == 52 || k == 56 {
        4
    } else {
        0
    }
}

pub fn ip_byte_of(ip: &[u8; 4], k: usize) -> (b: u8)
    ensures
        b == ip_byte(ip@, k as int),
{
    if k < 4 {
        ip[k]
    } else if k < 7 {
        255
    } else if k == 8 {
        192
    } else if k == 9 {
        168
    } else if k == 10 {
        4
    } else if k == 11 {
        1
    } else {
        0
    }
}

fn pointer_of(p: u32) -> (b: [u8; 4])
    ensures
        b@ == pointer_bytes(p),
{
    let b: [u8; 4] = [lane(p, 0), lane(p, 1), lane(p, 2), lane(p, 3)];
    assert(b@ =~= pointer_bytes(p));
    b
}

impl Soc {
    /// Write bytes one by one.
    pub fn write_bytes(&mut self, base: u32, bytes: &[u8], n: usize)
        requires
            old(self)@.wf(),
            n <= bytes@.len(),
        ensures
            final(self)@ == old(self)@.bytes_written(base, bytes@, n as nat),
            final(self)@.wf(),
    {
        let ghost start = self@;
        let mut k: usize = 0;
        while k < n
            invariant
                k <= n <= bytes@.len(),
                self@ == start.bytes_written(base, bytes@, k as nat),
                self@.wf(),
            decreases n - k,
        {
            self.write8(base.wrapping_add(k as u32), bytes[k] as u32);
            k = k + 1;
        }
    }

    fn send_and_wake(&mut self, queue: u32, item: &[u8]) -> (woken: Option<u32>)
        requires
            old(self)@.wf(),
        ensures
            (woken, final(self)@) == old(self)@.delivered(queue, item@),
            final(self)@.wf(),
    {
        if self.queue_post_raw(queue, item) {
            self.queue_unblock_receiver(queue)
        } else {
            None
        }
    }

    /// Post an event without data to the event loop; the woken task is to be
    /// made ready.
    pub fn wifi_post_event(&mut self, base_var: u32, id: u32) -> (woken: Option<u32>)
        requires
            old(self)@.wf(),
        ensures
            (woken, final(self)@) == old(self)@.event_posted(base_var, id),
            final(self)@.wf(),
    {
        let queue: u32 = self.sys_evt_queue();
        if queue == 0 {
            return None;
        }
        let isz: u32 = self.read32(queue.wrapping_add(64));
        if isz != 16 {
            return None;
        }
        let base: u32 = self.read32(base_var);
        if !self.queue_recv_waiting(queue) {
            return None;
        }
        let item: [u8; 16] = build_event(false, base, id, 0);
        self.send_and_wake(queue, item.as_slice())
    }

    /// Post the event of a finished scan.
    pub fn wifi_scan_post_event(&mut self, wifi_event_var: u32) -> (woken: Option<u32>)
        requires
            old(self)@.wf(),
        ensures
            (woken, final(self)@) == old(self)@.event_posted(wifi_event_var, SCAN_DONE_ID),
            final(self)@.wf(),
    {
        self.wifi_post_event(wifi_event_var, SCAN_DONE_ID)
    }

    fn ready_loop(&mut self) -> (queue: Option<u32>)
        requires
            old(self)@.wf(),
        ensures
            (queue, final(self)@) == old(self)@.loop_ready(),
            final(self)@.wf(),
    {
        let queue: u32 = self.sys_evt_queue();
        if queue == 0 {
            return None;
        }
        let isz: u32 = self.read32(queue.wrapping_add(64));
        if isz != 16 {
            return None;
        }
        if self.queue_recv_waiting(queue) {
            Some(queue)
        } else {
            None
        }
    }

    fn find_slot(&mut self) -> (slot: u32)
        requires
            old(self)@.wf(),
        ensures
            slot == old(self)@.scratch_slot(0),
            slot <= SCRATCH_SIZE,
            final(self)@ == old(self)@,
    {
        let ghost start = self@;
        let mut slot: u32 = 0;
        while slot + SCRATCH_SLOT <= SCRATCH_SIZE
            invariant
                slot <= SCRATCH_SIZE,
                self@ == start,
                start == old(self)@,
                self@.wf(),
                start.scratch_slot(0) == start.scratch_slot(slot),
            decreases SCRATCH_SIZE - slot,
        {
            proof {
                super::rtos::lemma_dram_quiet((WIFI_SCRATCH + slot) as u32);
                super::rtos::lemma_quiet(start, (WIFI_SCRATCH + slot) as u32);
            }
            let w: u32 = self.read32(WIFI_SCRATCH + slot);
            if w == 0 {
                return slot;
            }
            slot = slot + SCRATCH_SLOT;
        }
        slot
    }

    /// Post an event with data to the event loop; the woken task is to be made
    /// ready.
    pub fn wifi_post_event_with_data(&mut self, base_var: u32, id: u32, payload: &[u8]) -> (woken:
        Option<u32>)
        requires
            old(self)@.wf(),
        ensures
            (woken, final(self)@) == old(self)@.event_data_posted(base_var, id, payload@),
            final(self)@.wf(),
    {
        let ready: Option<u32> = self.ready_loop();
        if ready.is_none() {
            return None;
        }
        let slot: u32 = self.find_slot();
        if payload.len() as u64 > SCRATCH_SIZE as u64 - slot as u64 {
            return None;
        }
        let buf: u32 = WIFI_SCRATCH + slot;
        self.write_bytes(buf, payload, payload.len());
        let queue: u32 = self.sys_evt_queue();
        if queue == 0 {
            return None;
        }
        let base: u32 = self.read32(base_var);
        let item: [u8; 16] = build_event(true, base, id, buf);
        self.send_and_wake(queue, item.as_slice())
    }

    /// Write the record of an access point into slot `index` of a buffer.
    pub fn wifi_scan_record_ap(&mut self, out: u32, index: usize, ap: &ScanFixtureAp)
        requires
            old(self)@.wf(),
        ensures
            final(self)@ == old(self)@.record_written(out, index as u32, ap@),
            final(self)@.wf(),
    {
        let base: u32 = out.wrapping_add((index as u32).wrapping_mul(REC_SIZE));
        let n: usize = ssid_len_of(ap);
        self.write_bytes(base, ap.bssid.as_slice(), 6);
        self.write_bytes(base.wrapping_add(6), ap.ssid.as_slice(), n);
        self.write8(base.wrapping_add(6).wrapping_add(n as u32), 0);
        self.write8(base.wrapping_add(39), ap.chan as u32);
        self.write32(base.wrapping_add(40), 0);
        self.write8(base.wrapping_add(44), ap.rssi as u8 as u32);
        self.write32(base.wrapping_add(48), 3);
        self.write32(base.wrapping_add(52), 4);
        self.write32(base.wrapping_add(56), 4);
        self.write32(base.wrapping_add(60), 0);
        self.write32(base.wrapping_add(64), 0);
    }

    /// Station interface of the firmware; 0 while it is not there.
    pub fn wifi_sta_netif(&mut self) -> (netif: u32)
        requires
            old(self)@.wf(),
        ensures
            (netif, final(self)@) == old(self)@.sta_netif(),
            final(self)@.wf(),
    {
        match self.host.network {
            None => 0,
            Some(cell) => {
                let inst: u32 = self.read32(cell);
                if !(0x3FC8_0000 <= inst && inst < 0x3FD0_0000) {
                    return 0;
                }
                let netif: u32 = self.read32(inst.wrapping_add(4));
                if 0x3FC8_0000 <= netif && netif < 0x3FD0_0000 {
                    netif
                } else {
                    0
                }
            },
        }
    }

    fn name_is_arduino(&mut self, base: u32) -> (r: bool)
        requires
            old(self)@.wf(),
        ensures
            (if r {
                old(self)@.bytes_read(base, 8).0 == ARDUINO_NAME@
            } else {
                old(self)@.bytes_read(base, 8).0 != ARDUINO_NAME@
            }),
            final(self)@ == old(self)@.bytes_read(base, 8).1,
            final(self)@.wf(),
    {
        let ghost start = self@;
        let mut same = true;
        let mut k: u32 = 0;
        while k < 8
            invariant
                k <= 8,
                self@ == start.bytes_read(base, k as nat).1,
                start.bytes_read(base, k as nat).0.len() == k,
                same == (forall|i: int|
                    0 <= i < k ==> start.bytes_read(base, k as nat).0[i]
                        == #[trigger] ARDUINO_NAME@[i]),
                self@.wf(),
            decreases 8 - k,
        {
            let ghost before = start.bytes_read(base, k as nat).0;
            let b: u8 = self.read8(base.wrapping_add(k)) as u8;
            let want: u8 = ARDUINO_NAME[k as usize];
            if b != want {
                same = false;
            }
            k = k + 1;
            let ghost now = start.bytes_read(base, k as nat).0;
            assert(now == before.push(b));
            assert(now[k - 1] == b);
            assert(forall|i: int| 0 <= i < k - 1 ==> now[i] == before[i]);
        }
        proof {
            let all = start.bytes_read(base, 8).0;
            if same {
                assert(all =~= ARDUINO_NAME@);
            }
        }
        same
    }

    fn find_ard_waiter(&mut self, addr: u32) -> (r: Option<u32>)
        requires
            old(self)@.wf(),
        ensures
            (r, final(self)@) == old(self)@.ard_waiter_at(addr),
            final(self)@.wf(),
    {
        let len: u32 = self.read32(addr.wrapping_add(60));
        if len != 32 {
            return None;
        }
        let isz: u32 = self.read32(addr.wrapping_add(64));
        if isz != 4 {
            return None;
        }
        let item: u32 = self.read32(addr.wrapping_add(48));
        if item == addr.wrapping_add(44) || item == 0 {
            return None;
        }
        let owner: u32 = self.read32(item.wrapping_add(12));
        if self.name_is_arduino(owner.wrapping_add(52)) {
            Some(owner)
        } else {
            None
        }
    }

    /// Find the application event queue; 0 while it is not there.
    pub fn wifi_ard_queue_discover(&mut self) -> (queue: u32)
        requires
            old(self)@.wf(),
        ensures
            (queue, final(self)@) == old(self)@.ard_queue(),
            final(self)@.wf(),
    {
        match self.host.ard_queue {
            Some(q) => {
                return q;
            },
            None => {},
        }
        let mut addr: u32 = TASK_SCAN_START;
        let ghost all = self@.ard_from(TASK_SCAN_START);
        while addr < TASK_SCAN_END
            invariant
                addr <= TASK_SCAN_END,
                addr % 4 == 0,
                self@.wf(),
                all == self@.ard_from(addr),
                all == old(self)@.ard_queue(),
            decreases TASK_SCAN_END - addr,
        {
            match self.find_ard_waiter(addr) {
                Some(owner) => {
                    let ghost s = self@;
                    self.host.ard_queue = Some(addr);
                    self.host.ard_waiter = Some(owner);
                    proof {
                        reveal(SocState::wf);
                        assert(self@ =~= s.with_host(
                            HostState {
                                ard_queue: Some(addr),
                                ard_waiter: Some(owner),
                                ..s.host
                            },
                        ));
                    }
                    return addr;
                },
                None => {},
            }
            addr = addr + 4;
        }
        0
    }

    /// The application event queue is there and empty.
    pub fn wifi_ard_idle(&mut self) -> (r: bool)
        requires
            old(self)@.wf(),
        ensures
            (r, final(self)@) == old(self)@.ard_idle(),
            final(self)@.wf(),
    {
        let known = self.host.ard_queue.is_some();
        let q: u32 = self.wifi_ard_queue_discover();
        if !known && q == 0 {
            return false;
        }
        self.read32(q.wrapping_add(56)) == 0
    }

    fn ready_ard(&mut self, queue: u32) -> (r: Option<(u32, u32, u32)>)
        requires
            old(self)@.wf(),
        ensures
            (r, final(self)@) == old(self)@.ard_ready(queue),
            r is Some ==> final(self)@.host.ard_slot < WIFI_ARD_SLOTS,
            final(self)@.wf(),
    {
        if !self.queue_recv_waiting(queue) {
            return None;
        }
        let len: u32 = self.read32(queue.wrapping_add(60));
        let isz: u32 = self.read32(queue.wrapping_add(64));
        let mw: u32 = self.read32(queue.wrapping_add(56));
        if mw >= len || isz != 4 || self.host.ard_slot >= WIFI_ARD_SLOTS {
            return None;
        }
        proof {
            lemma_read_keeps_host(self@, queue);
            lemma_read_keeps_host(self@.after_read32(queue), queue.wrapping_add(8));
        }
        let head: u32 = self.read32(queue);
        let tail: u32 = self.read32(queue.wrapping_add(8));
        if head == 0 || tail == 0 {
            None
        } else {
            Some((mw, head, tail))
        }
    }

    fn write_block(&mut self, id: u32, info: &[u8; 44])
        requires
            old(self)@.wf(),
            old(self)@.host.ard_slot < WIFI_ARD_SLOTS,
        ensures
            final(self)@ == old(self)@.block_written(id, info@),
            final(self)@.wf(),
    {
        let slot: u32 = self.host.ard_slot;
        let ev: u32 = WIFI_ARD_POOL + slot * WIFI_ARD_SLOT;
        self.host.ard_slot = slot + 1;
        proof {
            reveal(SocState::wf);
            assert(self@ =~= old(self)@.with_host(
                HostState { ard_slot: (slot + 1) as u32, ..old(self)@.host },
            ));
        }
        self.write32(ev, id);
        self.write_bytes(ev.wrapping_add(4), info.as_slice(), 44);
    }

    fn queue_pointer(&mut self, queue: u32, ev: u32, mw: u32, head: u32, tail: u32)
        requires
            old(self)@.wf(),
        ensures
            final(self)@ == old(self)@.pointer_queued(queue, ev, mw, head, tail),
            final(self)@.wf(),
    {
        let wr: u32 = self.read32(queue.wrapping_add(4));
        let bytes: [u8; 4] = pointer_of(ev);
        self.write_bytes(wr, bytes.as_slice(), 4);
        let next: u32 = wr.wrapping_add(4);
        let pos: u32 = if next >= tail {
            head
        } else {
            next
        };
        self.write32(queue.wrapping_add(4), pos);
        self.write32(queue.wrapping_add(56), mw.wrapping_add(1));
    }

    /// Post an event to the application event queue.
    pub fn wifi_ard_post(&mut self, event_id: u32, info: &[u8; 44], list_base: u32, top_prio: u32) -> (sent:
        bool)
        requires
            old(self)@.wf(),
        ensures
            (sent, final(self)@) == old(self)@.ard_posted(event_id, info@, list_base, top_prio),
            final(self)@.wf(),
    {
        let queue: u32 = self.wifi_ard_queue_discover();
        if queue == 0 {
            return false;
        }
        match self.ready_ard(queue) {
            None => false,
            Some((mw, head, tail)) => {
                let ev: u32 = WIFI_ARD_POOL + self.host.ard_slot * WIFI_ARD_SLOT;
                self.write_block(event_id, info);
                self.queue_pointer(queue, ev, mw, head, tail);
                match self.queue_unblock_receiver(queue) {
                    None => false,
                    Some(t) => {
                        self.ready_task_on_list(t, list_base, top_prio);
                        true
                    },
                }
            },
        }
    }

    /// `ptr` is an event block of the host, which the firmware must not free.
    pub fn wifi_ard_free(&mut self, ptr: u32) -> (r: bool)
        requires
            old(self)@.wf(),
        ensures
            r == event_block(ptr),
            final(self)@ == old(self)@,
            final(self)@.wf(),
    {
        ptr == WIFI_ARD_POOL || ptr == WIFI_ARD_POOL + 192 || ptr == WIFI_ARD_POOL + 384 || ptr
            == WIFI_ARD_POOL + 576
    }
}

/// Reads leave the host side alone.
proof fn lemma_read_keeps_host(s: SocState, addr: u32)
    ensures
        s.after_read32(addr).host == s.host,
{
    reveal(SocState::after_read32);
}

} // verus!
