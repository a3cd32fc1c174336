//! The firmware's scheduler structures in memory, as the host finds and edits
//! them: tasks, lists, queues and event groups.
//!
//! A list has its item count first, then its end marker at +8, whose first item
//! is linked at +4 and whose last at +8. A list item holds its value, the next
//! and previous item at +4 and +8, its task at +12 and its list at +16. A task
//! has its state item at +4, its event item's list at +40, its priority at +44
//! and its name at +52. A queue has its storage bounds at +0 and +8, the write
//! position at +4, the tasks waiting to receive at +36, the message count,
//! length and item size at +56, +60 and +64.
//!
//! Addresses wrap at 32 bits, as the processor's do.

use super::{Soc, SocState};
use crate::memory::Place;
use vstd::prelude::*;

verus! {

broadcast use crate::soc::sizes::lemma_sized;

/// Where tasks are searched.
pub const TASK_SCAN_START: u32 = 0x3FC9_0000;

pub const TASK_SCAN_END: u32 = 0x3FCF_0000;

/// Name of the event loop task.
pub const SYS_EVT: [u8; 8] = [0x73, 0x79, 0x73, 0x5F, 0x65, 0x76, 0x74, 0];

/// Highest task priority.
pub const MAX_PRIO: u32 = 25;

/// Scan-done bit of the network event group.
pub const SCAN_DONE_BIT: u32 = 0x2;

/// Value bits of an event item whose task is being woken.
pub const WOKEN_BITS: u32 = 0x8200_0000;

/// Waiters looked at in an event group.
pub const MAX_WAITERS: u32 = 32;

/// `x` points into the data-bus SRAM.
pub open spec fn in_dram(x: u32) -> bool {
    0x3FC8_0000 <= x < 0x3FD0_0000
}

/// `x` points into the data-bus SRAM or nowhere.
pub open spec fn in_dram_or_null(x: u32) -> bool {
    in_dram(x) || x == 0
}

fn is_dram(x: u32) -> (r: bool)
    ensures
        r == in_dram(x),
{
    0x3FC8_0000 <= x && x < 0x3FD0_0000
}

/// An access at `addr` goes to no peripheral register.
pub open spec fn quiet(addr: u32) -> bool {
    crate::memory::place(crate::memory::remapped(addr)) != Place::Apb
}

/// Memory reads change nothing.
pub proof fn lemma_quiet(s: SocState, addr: u32)
    requires
        quiet(addr),
    ensures
        s.after_read32(addr) == s,
        s.after_read8(addr) == s,
        s.read32(addr) == s.mem.word(crate::memory::remapped(addr)),
        s.read8(addr) == s.mem.byte(crate::memory::remapped(addr)) as u32,
{
    reveal(SocState::read32);
    reveal(SocState::after_read32);
    reveal(SocState::read8);
    reveal(SocState::after_read8);
}

/// Data-bus SRAM addresses are quiet.
pub proof fn lemma_dram_quiet(addr: u32)
    requires
        in_dram(addr),
    ensures
        quiet(addr),
        crate::memory::remapped(addr) == addr,
{
}

impl SocState {
    /// The memory at `addr` looks like the task called `name`: the name is
    /// there, the priority is possible, and the lists of its items lie in SRAM.
    pub open spec fn is_task(self, addr: u32, name: Seq<u8>) -> bool {
        &&& forall|k: int|
            0 <= k < 8 ==> self.mem.byte((addr + 52 + k) as u32) == #[trigger] name[k]
        &&& self.mem.word((addr + 44) as u32) <= MAX_PRIO
        &&& in_dram_or_null(self.mem.word((addr + 40) as u32))
        &&& in_dram_or_null(self.mem.word((addr + 20) as u32))
    }

    /// The first task called `name` from `addr` on, searched word by word.
    pub open spec fn task_from(self, name: Seq<u8>, addr: u32) -> Option<u32>
        decreases TASK_SCAN_END + 4 - addr,
    {
        if addr >= TASK_SCAN_END {
            None
        } else if self.is_task(addr, name) {
            Some(addr)
        } else {
            self.task_from(name, (addr + 4) as u32)
        }
    }

    /// The first task called `name`.
    pub open spec fn task_named(self, name: Seq<u8>) -> Option<u32> {
        self.task_from(name, TASK_SCAN_START)
    }

    /// Queue that the event loop task waits on; 0 while there is none.
    pub open spec fn event_queue(self) -> u32 {
        match self.task_named(SYS_EVT@) {
            Some(t) => {
                let list = self.mem.word((t + 40) as u32);
                if list == 0 {
                    0
                } else {
                    list.wrapping_sub(36)
                }
            },
            None => 0,
        }
    }

    /// `item`, between `prev` and `next`, is taken out of `list`.
    pub open spec fn unlinked(self, item: u32, next: u32, prev: u32, list: u32) -> SocState {
        let s1 = if prev != 0 {
            self.write32(prev.wrapping_add(4), next)
        } else {
            self
        };
        let s2 = s1.write32(next.wrapping_add(8), prev);
        let n = s2.read32(list).wrapping_sub(1);
        s2.after_read32(list).write32(list, n).write32(item.wrapping_add(16), 0)
    }

    /// The task with state item `item` leaves the list it waits in, if any.
    pub open spec fn state_unlinked(self, item: u32) -> SocState {
        let list = self.read32(item.wrapping_add(16));
        let s1 = self.after_read32(item.wrapping_add(16));
        if list == 0 {
            s1
        } else {
            let prev = s1.read32(item.wrapping_add(8));
            let s2 = s1.after_read32(item.wrapping_add(8));
            let next = s2.read32(item.wrapping_add(4));
            s2.after_read32(item.wrapping_add(4)).unlinked(item, next, prev, list)
        }
    }

    /// A task waits to receive from `queue`.
    pub open spec fn recv_waiting(self, queue: u32) -> bool {
        let item = self.read32(queue.wrapping_add(48));
        item != queue.wrapping_add(44) && item != 0
    }

    pub open spec fn after_recv_waiting(self, queue: u32) -> SocState {
        self.after_read32(queue.wrapping_add(48))
    }

    /// The first task waiting to receive is woken: its event item leaves the
    /// queue's list and its state item the list it waits in.
    pub open spec fn receiver_unblocked(self, queue: u32) -> (Option<u32>, SocState) {
        let list = queue.wrapping_add(36);
        let end = queue.wrapping_add(44);
        let item = self.read32(queue.wrapping_add(48));
        let s1 = self.after_read32(queue.wrapping_add(48));
        if item == end || item == 0 {
            (None, s1)
        } else {
            let next = s1.read32(item.wrapping_add(4));
            let s2 = s1.after_read32(item.wrapping_add(4));
            let owner = s2.read32(item.wrapping_add(12));
            let s3 = s2.after_read32(item.wrapping_add(12));
            let prev = s3.read32(item.wrapping_add(8));
            let s4 = s3.after_read32(item.wrapping_add(8));
            (
                Some(owner),
                s4.unlinked(item, next, prev, list).state_unlinked(owner.wrapping_add(4)),
            )
        }
    }

    /// The first `n` bytes of `item` are written into the ring from `head` to
    /// `tail`, starting at `wr`; the new write position comes first.
    pub open spec fn ring_written(self, wr: u32, head: u32, tail: u32, item: Seq<u8>, n: nat) -> (
        u32,
        SocState,
    )
        decreases n,
    {
        if n == 0 {
            (wr, self)
        } else {
            let (w, s) = self.ring_written(wr, head, tail, item, (n - 1) as nat);
            let w1 = w.wrapping_add(1);
            (
                if w1 >= tail {
                    head
                } else {
                    w1
                },
                s.write8(w, item[n - 1] as u32),
            )
        }
    }

    /// `item` is sent to `queue`: refused where the queue is full, the item has
    /// not its item size, or the queue has no storage.
    pub open spec fn posted(self, queue: u32, item: Seq<u8>) -> (bool, SocState) {
        let len = self.read32(queue.wrapping_add(60));
        let s1 = self.after_read32(queue.wrapping_add(60));
        let isz = s1.read32(queue.wrapping_add(64));
        let s2 = s1.after_read32(queue.wrapping_add(64));
        let mw = s2.read32(queue.wrapping_add(56));
        let s3 = s2.after_read32(queue.wrapping_add(56));
        if mw >= len || isz == 0 || item.len() != isz {
            (false, s3)
        } else {
            let head = s3.read32(queue);
            let s4 = s3.after_read32(queue);
            let tail = s4.read32(queue.wrapping_add(8));
            let s5 = s4.after_read32(queue.wrapping_add(8));
            if head == 0 || tail == 0 {
                (false, s5)
            } else {
                let wr = s5.read32(queue.wrapping_add(4));
                let s6 = s5.after_read32(queue.wrapping_add(4));
                let (w, s7) = s6.ring_written(wr, head, tail, item, item.len());
                (
                    true,
                    s7.write32(queue.wrapping_add(4), w).write32(
                        queue.wrapping_add(56),
                        mw.wrapping_add(1),
                    ),
                )
            }
        }
    }

    /// Core `core` is asked to switch tasks if it runs one of lower priority.
    pub open spec fn yielded(self, pxcur: u32, core: u32, owner: u32, prio: u32) -> SocState {
        let cell = pxcur.wrapping_add((core * 4) as u32);
        let cur = self.read32(cell);
        let s1 = self.after_read32(cell);
        if cur != 0 && cur != owner {
            let cur_prio = s1.read32(cur.wrapping_add(44));
            let s2 = s1.after_read32(cur.wrapping_add(44));
            if prio > cur_prio {
                SocState {
                    from_cpu: s2.from_cpu.update(core as int, s2.from_cpu[core as int] | 1),
                    ..s2
                }
            } else {
                s2
            }
        } else {
            s1
        }
    }

    /// `item` becomes the last item of `list`, between `prev` and the end marker.
    pub open spec fn appended(self, item: u32, end: u32, prev: u32, list: u32) -> SocState {
        self.write32(item.wrapping_add(4), end).write32(item.wrapping_add(8), prev).write32(
            prev.wrapping_add(4),
            item,
        ).write32(end.wrapping_add(8), item).write32(item, 0).write32(item.wrapping_add(16), list)
    }

    /// The state item of task `owner` goes to the end of the ready list of its
    /// priority, and the top ready priority follows. The priority comes first.
    pub open spec fn ready_linked(self, owner: u32, list_base: u32, top_prio: u32) -> (
        u32,
        SocState,
    ) {
        let prio = self.read32(owner.wrapping_add(44));
        let s1 = self.after_read32(owner.wrapping_add(44));
        let list = list_base.wrapping_add(prio.wrapping_mul(20));
        let end = list.wrapping_add(8);
        let prev = s1.read32(end.wrapping_add(8));
        let s2 = s1.after_read32(end.wrapping_add(8));
        let s3 = s2.appended(owner.wrapping_add(4), end, prev, list);
        let n = s3.read32(list).wrapping_add(1);
        let s4 = s3.after_read32(list).write32(list, n);
        let top = s4.read32(top_prio);
        let s5 = s4.after_read32(top_prio);
        (
            prio,
            if prio > top {
                s5.write32(top_prio, prio)
            } else {
                s5
            },
        )
    }

    /// Task `owner` is made ready, and each core that runs a lower priority is
    /// asked to switch.
    pub open spec fn readied(self, owner: u32, list_base: u32, top_prio: u32) -> SocState {
        let (prio, s) = self.ready_linked(owner, list_base, top_prio);
        match s.host.pxcur {
            Some(pxcur) => s.yielded(pxcur, 0, owner, prio).yielded(pxcur, 1, owner, prio),
            None => s,
        }
    }

    /// The waiters of an event group from `item` on are gone through, at most
    /// `fuel` of them: each one that waits for a set bit is woken. The last task
    /// woken comes first, else `woken`.
    pub open spec fn waiters_woken(
        self,
        list: u32,
        bits: u32,
        item: u32,
        woken: Option<u32>,
        fuel: nat,
    ) -> (Option<u32>, SocState)
        decreases fuel,
    {
        if item == list.wrapping_add(8) || item == 0 || fuel == 0 {
            (woken, self)
        } else {
            let next = self.read32(item.wrapping_add(4));
            let s1 = self.after_read32(item.wrapping_add(4));
            let waited = s1.read32(item);
            let s2 = s1.after_read32(item);
            if waited & bits != 0 {
                let owner = s2.read32(item.wrapping_add(12));
                let s3 = s2.after_read32(item.wrapping_add(12)).write32(item, bits | WOKEN_BITS);
                let prev = s3.read32(item.wrapping_add(8));
                let s4 = s3.after_read32(item.wrapping_add(8)).unlinked(item, next, prev, list);
                s4.state_unlinked(owner.wrapping_add(4)).waiters_woken(
                    list,
                    bits,
                    next,
                    Some(owner),
                    (fuel - 1) as nat,
                )
            } else {
                s2.waiters_woken(list, bits, next, woken, (fuel - 1) as nat)
            }
        }
    }

    /// The scan-done bit of the event group that the network object at
    /// `network` names is set, and its waiters are woken.
    pub open spec fn scan_group_done(self, network: u32) -> (Option<u32>, SocState) {
        let group = self.read32(network.wrapping_add(4));
        let s1 = self.after_read32(network.wrapping_add(4));
        if !in_dram(group) {
            (None, s1)
        } else {
            let bits = s1.read32(group) | SCAN_DONE_BIT;
            let s2 = s1.after_read32(group).write32(group, bits);
            let list = group.wrapping_add(4);
            let first = list.wrapping_add(12);
            let item = s2.read32(first);
            s2.after_read32(first).waiters_woken(list, bits, item, None, MAX_WAITERS as nat)
        }
    }
}

impl Soc {
    /// The eight bytes at `addr` are `name`.
    fn name_at(&mut self, addr: u32, name: &[u8; 8]) -> (r: bool)
        requires
            old(self)@.wf(),
            TASK_SCAN_START <= addr < TASK_SCAN_END + 0x100,
        ensures
            r == (forall|k: int|
                0 <= k < 8 ==> old(self)@.mem.byte((addr + k) as u32) == #[trigger] name@[k]),
            final(self)@ == old(self)@,
    {
        let ghost start = self@;
        let mut k: u32 = 0;
        while k < 8
            invariant
                k <= 8,
                TASK_SCAN_START <= addr < TASK_SCAN_END + 0x100,
                self@ == start,
                start == old(self)@,
                self@.wf(),
                forall|i: int|
                    0 <= i < k ==> start.mem.byte((addr + i) as u32) == #[trigger] name@[i],
            decreases 8 - k,
        {
            proof {
                lemma_dram_quiet((addr + k) as u32);
                lemma_quiet(start, (addr + k) as u32);
            }
            let b: u32 = self.read8(addr + k);
            if b != name[k as usize] as u32 {
                assert(start.mem.byte((addr + k as int) as u32) != name@[k as int]);
                return false;
            }
            k = k + 1;
        }
        true
    }

    /// Find a task by its first eight name bytes.
    pub fn find_task_by_name(&mut self, name8: &[u8; 8]) -> (r: Option<u32>)
        requires
            old(self)@.wf(),
        ensures
            r == old(self)@.task_named(name8@),
            r matches Some(a) ==> TASK_SCAN_START <= a < TASK_SCAN_END,
            final(self)@ == old(self)@,
    {
        let ghost start = self@;
        let mut addr: u32 = TASK_SCAN_START;
        while addr < TASK_SCAN_END
            invariant
                TASK_SCAN_START <= addr <= TASK_SCAN_END,
                addr % 4 == 0,
                self@ == start,
                start == old(self)@,
                self@.wf(),
                start.task_named(name8@) == start.task_from(name8@, addr),
            decreases TASK_SCAN_END - addr,
        {
            if self.name_at(addr + 52, name8) {
                proof {
                    lemma_dram_quiet((addr + 44) as u32);
                    lemma_quiet(start, (addr + 44) as u32);
                    lemma_dram_quiet((addr + 40) as u32);
                    lemma_quiet(start, (addr + 40) as u32);
                    lemma_dram_quiet((addr + 20) as u32);
                    lemma_quiet(start, (addr + 20) as u32);
                }
                let prio: u32 = self.read32(addr + 44);
                let ev: u32 = self.read32(addr + 40);
                let st: u32 = self.read32(addr + 20);
                if prio <= MAX_PRIO && (is_dram(ev) || ev == 0) && (is_dram(st) || st == 0) {
                    assert(start.is_task(addr, name8@));
                    return Some(addr);
                }
            }
            assert(!start.is_task(addr, name8@));
            addr = addr + 4;
        }
        None
    }

    /// Queue that the event loop task waits on; 0 while there is none.
    pub fn sys_evt_queue(&mut self) -> (queue: u32)
        requires
            old(self)@.wf(),
        ensures
            queue == old(self)@.event_queue(),
            final(self)@ == old(self)@,
    {
        match self.find_task_by_name(&SYS_EVT) {
            Some(t) => {
                proof {
                    lemma_dram_quiet((t + 40) as u32);
                    lemma_quiet(self@, (t + 40) as u32);
                }
                let list: u32 = self.read32(t + 40);
                if list == 0 {
                    0
                } else {
                    list.wrapping_sub(36)
                }
            },
            None => 0,
        }
    }

    /// Take a list item out of its list.
    fn unlink(&mut self, item: u32, next: u32, prev: u32, list: u32)
        requires
            old(self)@.wf(),
        ensures
            final(self)@ == old(self)@.unlinked(item, next, prev, list),
            final(self)@.wf(),
    {
        if prev != 0 {
            self.write32(prev.wrapping_add(4), next);
        }
        self.write32(next.wrapping_add(8), prev);
        let n: u32 = self.read32(list).wrapping_sub(1);
        self.write32(list, n);
        self.write32(item.wrapping_add(16), 0);
    }

    /// Take a state item out of the list it waits in.
    fn unlink_state(&mut self, item: u32)
        requires
            old(self)@.wf(),
        ensures
            final(self)@ == old(self)@.state_unlinked(item),
            final(self)@.wf(),
    {
        let list: u32 = self.read32(item.wrapping_add(16));
        if list != 0 {
            let prev: u32 = self.read32(item.wrapping_add(8));
            let next: u32 = self.read32(item.wrapping_add(4));
            self.unlink(item, next, prev, list);
        }
    }

    /// A task waits to receive from `queue`.
    pub fn queue_recv_waiting(&mut self, queue: u32) -> (r: bool)
        requires
            old(self)@.wf(),
        ensures
            r == old(self)@.recv_waiting(queue),
            final(self)@ == old(self)@.after_recv_waiting(queue),
            final(self)@.wf(),
    {
        let item: u32 = self.read32(queue.wrapping_add(48));
        item != queue.wrapping_add(44) && item != 0
    }

    /// Wake the first task waiting to receive from `queue`.
    pub fn queue_unblock_receiver(&mut self, queue: u32) -> (woken: Option<u32>)
        requires
            old(self)@.wf(),
        ensures
            (woken, final(self)@) == old(self)@.receiver_unblocked(queue),
            final(self)@.wf(),
    {
        let end: u32 = queue.wrapping_add(44);
        let item: u32 = self.read32(queue.wrapping_add(48));
        if item == end || item == 0 {
            return None;
        }
        let next: u32 = self.read32(item.wrapping_add(4));
        let owner: u32 = self.read32(item.wrapping_add(12));
        let prev: u32 = self.read32(item.wrapping_add(8));
        self.unlink(item, next, prev, queue.wrapping_add(36));
        self.unlink_state(owner.wrapping_add(4));
        Some(owner)
    }

    /// Send an item to `queue`.
    pub fn queue_post_raw(&mut self, queue: u32, item: &[u8]) -> (sent: bool)
        requires
            old(self)@.wf(),
        ensures
            (sent, final(self)@) == old(self)@.posted(queue, item@),
            final(self)@.wf(),
    {
        let len: u32 = self.read32(queue.wrapping_add(60));
        let isz: u32 = self.read32(queue.wrapping_add(64));
        let mw: u32 = self.read32(queue.wrapping_add(56));
        if mw >= len || isz == 0 || item.len() as u64 != isz as u64 {
            return false;
        }
        let head: u32 = self.read32(queue);
        let tail: u32 = self.read32(queue.wrapping_add(8));
        if head == 0 || tail == 0 {
            return false;
        }
        let mut wr: u32 = self.read32(queue.wrapping_add(4));
        let ghost first = wr;
        let ghost start = self@;
        let mut i: usize = 0;
        while i < item.len()
            invariant
                i <= item@.len(),
                (wr, self@) == start.ring_written(first, head, tail, item@, i as nat),
                self@.wf(),
            decreases item@.len() - i,
        {
            self.write8(wr, item[i] as u32);
            wr = wr.wrapping_add(1);
            if wr >= tail {
                wr = head;
            }
            i = i + 1;
        }
        self.write32(queue.wrapping_add(4), wr);
        self.write32(queue.wrapping_add(56), mw.wrapping_add(1));
        true
    }

    /// Ask a core to switch tasks.
    fn yield_core(&mut self, pxcur: u32, core: u32, owner: u32, prio: u32)
        requires
            old(self)@.wf(),
            core < 2,
        ensures
            final(self)@ == old(self)@.yielded(pxcur, core, owner, prio),
            final(self)@.wf(),
    {
        let cur: u32 = self.read32(pxcur.wrapping_add(core * 4));
        if cur != 0 && cur != owner {
            let cur_prio: u32 = self.read32(cur.wrapping_add(44));
            if prio > cur_prio {
                reveal(SocState::wf);
                let ghost s2 = self@;
                let v: u32 = self.from_cpu[core as usize];
                self.from_cpu[core as usize] = v | 1;
                assert(self@ =~= SocState {
                    from_cpu: s2.from_cpu.update(core as int, s2.from_cpu[core as int] | 1),
                    ..s2
                });
            }
        }
    }

    /// Make an item the last of a list.
    fn append(&mut self, item: u32, end: u32, prev: u32, list: u32)
        requires
            old(self)@.wf(),
        ensures
            final(self)@ == old(self)@.appended(item, end, prev, list),
            final(self)@.wf(),
    {
        self.write32(item.wrapping_add(4), end);
        self.write32(item.wrapping_add(8), prev);
        self.write32(prev.wrapping_add(4), item);
        self.write32(end.wrapping_add(8), item);
        self.write32(item, 0);
        self.write32(item.wrapping_add(16), list);
    }

    /// Put a task at the end of its ready list.
    fn link_ready(&mut self, owner: u32, list_base: u32, top_prio: u32) -> (prio: u32)
        requires
            old(self)@.wf(),
        ensures
            (prio, final(self)@) == old(self)@.ready_linked(owner, list_base, top_prio),
            final(self)@.wf(),
    {
        let prio: u32 = self.read32(owner.wrapping_add(44));
        let list: u32 = list_base.wrapping_add(prio.wrapping_mul(20));
        let end: u32 = list.wrapping_add(8);
        let prev: u32 = self.read32(end.wrapping_add(8));
        self.append(owner.wrapping_add(4), end, prev, list);
        let n: u32 = self.read32(list).wrapping_add(1);
        self.write32(list, n);
        let top: u32 = self.read32(top_prio);
        if prio > top {
            self.write32(top_prio, prio);
        }
        prio
    }

    /// Make a task ready.
    pub fn ready_task_on_list(&mut self, owner: u32, list_base: u32, top_prio: u32)
        requires
            old(self)@.wf(),
        ensures
            final(self)@ == old(self)@.readied(owner, list_base, top_prio),
            final(self)@.wf(),
    {
        let prio: u32 = self.link_ready(owner, list_base, top_prio);
        match self.host.pxcur {
            Some(pxcur) => {
                self.yield_core(pxcur, 0, owner, prio);
                self.yield_core(pxcur, 1, owner, prio);
            },
            None => {},
        }
    }

    /// Complete a scan at the network event group.
    pub fn wifi_scan_complete_empty(&mut self, network_obj: u32) -> (woken: Option<u32>)
        requires
            old(self)@.wf(),
        ensures
            (woken, final(self)@) == old(self)@.scan_group_done(network_obj),
            final(self)@.wf(),
    {
        let group: u32 = self.read32(network_obj.wrapping_add(4));
        if !is_dram(group) {
            return None;
        }
        let bits: u32 = self.read32(group) | SCAN_DONE_BIT;
        self.write32(group, bits);
        let list: u32 = group.wrapping_add(4);
        let end: u32 = list.wrapping_add(8);
        let mut item: u32 = self.read32(list.wrapping_add(12));
        let mut guard: u32 = 0;
        let mut woken: Option<u32> = None;
        let ghost all = self@.waiters_woken(list, bits, item, None, MAX_WAITERS as nat);
        while item != end && item != 0 && guard < MAX_WAITERS
            invariant
                guard <= MAX_WAITERS,
                end == list.wrapping_add(8),
                self@.wf(),
                all == self@.waiters_woken(list, bits, item, woken, (MAX_WAITERS - guard) as nat),
            decreases MAX_WAITERS - guard,
        {
            guard = guard + 1;
            let next: u32 = self.read32(item.wrapping_add(4));
            let waited: u32 = self.read32(item);
            if waited & bits != 0 {
                let owner: u32 = self.read32(item.wrapping_add(12));
                self.write32(item, bits | WOKEN_BITS);
                let prev: u32 = self.read32(item.wrapping_add(8));
                self.unlink(item, next, prev, list);
                self.unlink_state(owner.wrapping_add(4));
                woken = Some(owner);
            }
            item = next;
        }
        woken
    }
}

/// The search finds the task at the lowest aligned address in the range, and
/// fails only where there is none.
pub proof fn law_first_task_is_found(s: SocState, name: Seq<u8>, b: u32)
    requires
        TASK_SCAN_START <= b < TASK_SCAN_END,
        b % 4 == 0,
        s.is_task(b, name),
    ensures
        s.task_named(name) matches Some(a) && TASK_SCAN_START <= a <= b && a % 4 == 0 && s.is_task(
            a,
            name,
        ),
{
    lemma_task_from(s, name, TASK_SCAN_START, b);
}

proof fn lemma_task_from(s: SocState, name: Seq<u8>, addr: u32, b: u32)
    requires
        addr <= b < TASK_SCAN_END,
        addr % 4 == 0,
        b % 4 == 0,
        s.is_task(b, name),
    ensures
        s.task_from(name, addr) matches Some(a) && addr <= a <= b && a % 4 == 0 && s.is_task(
            a,
            name,
        ),
    decreases b - addr,
{
    if !s.is_task(addr, name) {
        lemma_task_from(s, name, (addr + 4) as u32, b);
    }
}

} // verus!
