//! Lengths of straight-line instruction runs, kept per core and start address.
//!
//! A run ends with the first instruction that can leave the linear flow, or
//! before one that does not decode, and has at most sixteen instructions. Two
//! runs whose addresses agree in bits 11:1 share a place; the later one stays.

use vstd::prelude::*;

verus! {

/// Places per core.
pub const FAST_CACHE_SIZE: usize = 2048;

/// Mark of an empty place.
pub const FAST_TAG_INVALID: u32 = 0xFFFF_FFFF;

/// Longest run.
pub const FAST_MAX_OPS: usize = 16;

/// Place of a start address.
pub open spec fn place(pc: u32) -> int {
    (pc / 2) as int % 2048
}

/// Length of the run that starts with the given decoded instructions, of which
/// `branches` tells which ones end a run; 0 if the first does not decode.
pub open spec fn run_length(branches: Seq<bool>, n: nat) -> nat
    decreases FAST_MAX_OPS - n,
{
    if n >= FAST_MAX_OPS || n >= branches.len() {
        n
    } else if branches[n as int] {
        n + 1
    } else {
        run_length(branches, n + 1)
    }
}

/// The kept lengths: for each core and place the start address and the length.
#[verifier::ext_equal]
pub struct BlockState {
    pub tags: Seq<u32>,
    pub lens: Seq<u8>,
    pub tags1: Seq<u32>,
    pub lens1: Seq<u8>,
}

impl BlockState {
    pub open spec fn reset() -> BlockState {
        BlockState {
            tags: Seq::new(FAST_CACHE_SIZE as nat, |i: int| FAST_TAG_INVALID),
            lens: Seq::new(FAST_CACHE_SIZE as nat, |i: int| 0u8),
            tags1: Seq::new(FAST_CACHE_SIZE as nat, |i: int| FAST_TAG_INVALID),
            lens1: Seq::new(FAST_CACHE_SIZE as nat, |i: int| 0u8),
        }
    }

    pub open spec fn wf(self) -> bool {
        &&& self.tags.len() == FAST_CACHE_SIZE
        &&& self.lens.len() == FAST_CACHE_SIZE
        &&& self.tags1.len() == FAST_CACHE_SIZE
        &&& self.lens1.len() == FAST_CACHE_SIZE
    }

    pub open spec fn tag(self, core: int, i: int) -> u32 {
        if core == 0 {
            self.tags[i]
        } else {
            self.tags1[i]
        }
    }

    pub open spec fn len(self, core: int, i: int) -> u8 {
        if core == 0 {
            self.lens[i]
        } else {
            self.lens1[i]
        }
    }

    /// Kept length of the run at `pc`.
    pub open spec fn lookup(self, core: int, pc: u32) -> Option<u8> {
        if self.tag(core, place(pc)) == pc && self.len(core, place(pc)) > 0 {
            Some(self.len(core, place(pc)))
        } else {
            None
        }
    }

    /// The length of the run at `pc` is kept.
    pub open spec fn keeping(self, core: int, pc: u32, len: u8) -> BlockState {
        if core == 0 {
            BlockState {
                tags: self.tags.update(place(pc), pc),
                lens: self.lens.update(place(pc), len),
                ..self
            }
        } else {
            BlockState {
                tags1: self.tags1.update(place(pc), pc),
                lens1: self.lens1.update(place(pc), len),
                ..self
            }
        }
    }

    /// Length of the run at `pc`: the kept one, else that of the instructions
    /// given.
    pub open spec fn len_for(self, core: int, pc: u32, branches: Seq<bool>) -> Option<u8> {
        match self.lookup(core, pc) {
            Some(l) => Some(l),
            None => if run_length(branches, 0) == 0 {
                None
            } else {
                Some(run_length(branches, 0) as u8)
            },
        }
    }

    pub open spec fn after_len_for(self, core: int, pc: u32, branches: Seq<bool>) -> BlockState {
        match self.lookup(core, pc) {
            Some(_) => self,
            None => if run_length(branches, 0) == 0 {
                self
            } else {
                self.keeping(core, pc, run_length(branches, 0) as u8)
            },
        }
    }
}

/// The kept lengths.
pub struct BlockCache {
    tags: [u32; 2048],
    lens: [u8; 2048],
    tags1: [u32; 2048],
    lens1: [u8; 2048],
}

impl View for BlockCache {
    type V = BlockState;

    closed spec fn view(&self) -> BlockState {
        BlockState {
            tags: self.tags@,
            lens: self.lens@,
            tags1: self.tags1@,
            lens1: self.lens1@,
        }
    }
}

/// Length of the run that starts with the given decoded instructions.
fn count_run(branches: &[bool]) -> (n: usize)
    ensures
        n == run_length(branches@, 0),
        n <= FAST_MAX_OPS,
{
    let mut n: usize = 0;
    while n < FAST_MAX_OPS && n < branches.len()
        invariant
            n <= FAST_MAX_OPS,
            run_length(branches@, 0) == run_length(branches@, n as nat),
        decreases FAST_MAX_OPS - n,
    {
        if branches[n] {
            return n + 1;
        }
        n = n + 1;
    }
    n
}

impl BlockCache {
    pub fn new() -> (b: Self)
        ensures
            b@ == BlockState::reset(),
            b@.wf(),
    {
        let b = BlockCache {
            tags: [FAST_TAG_INVALID; 2048],
            lens: [0u8; 2048],
            tags1: [FAST_TAG_INVALID; 2048],
            lens1: [0u8; 2048],
        };
        assert(b@ =~= BlockState::reset());
        b
    }

    /// Kept length of the run at `pc`.
    pub fn lookup(&self, core: usize, pc: u32) -> (r: Option<u8>)
        requires
            core < 2,
        ensures
            r == self@.lookup(core as int, pc),
    {
        let i: usize = (pc / 2) as usize % FAST_CACHE_SIZE;
        let tag: u32 = if core == 0 {
            self.tags[i]
        } else {
            self.tags1[i]
        };
        let len: u8 = if core == 0 {
            self.lens[i]
        } else {
            self.lens1[i]
        };
        if tag == pc && len > 0 {
            Some(len)
        } else {
            None
        }
    }

    /// Length of the run at `pc`. `branches` holds, for the instructions that
    /// decode from `pc` on, whether they can leave the linear flow and so end it.
    pub fn fast_len_for(&mut self, core: usize, pc: u32, branches: &[bool]) -> (r: Option<u8>)
        requires
            core < 2,
        ensures
            r == old(self)@.len_for(core as int, pc, branches@),
            final(self)@ == old(self)@.after_len_for(core as int, pc, branches@),
    {
        let kept: Option<u8> = self.lookup(core, pc);
        if kept.is_some() {
            return kept;
        }
        let n: usize = count_run(branches);
        if n == 0 {
            return None;
        }
        let len: u8 = n as u8;
        let i: usize = (pc / 2) as usize % FAST_CACHE_SIZE;
        if core == 0 {
            self.tags[i] = pc;
            self.lens[i] = len;
        } else {
            self.tags1[i] = pc;
            self.lens1[i] = len;
        }
        assert(self@ =~= old(self)@.keeping(core as int, pc, len));
        Some(len)
    }
}

/// A run has between one and sixteen instructions, none but the last of which
/// ends a run.
pub proof fn law_run_is_straight(branches: Seq<bool>, i: int)
    requires
        0 <= i < run_length(branches, 0) - 1,
    ensures
        run_length(branches, 0) <= FAST_MAX_OPS,
        run_length(branches, 0) <= branches.len(),
        !branches[i],
{
    lemma_run(branches, 0, i);
}

proof fn lemma_run(branches: Seq<bool>, n: nat, i: int)
    requires
        n <= FAST_MAX_OPS,
        n <= branches.len(),
    ensures
        n <= run_length(branches, n) <= FAST_MAX_OPS,
        run_length(branches, n) <= branches.len(),
        n <= i < run_length(branches, n) - 1 ==> !branches[i],
    decreases FAST_MAX_OPS - n,
{
    if n < FAST_MAX_OPS && n < branches.len() && !branches[n as int] {
        lemma_run(branches, n + 1, i);
    }
}

/// A kept length is found again, whatever the instructions are by then, until a
/// run at another address takes its place; the other core is not affected.
pub proof fn law_length_is_kept(s: BlockState, core: int, pc: u32, len: u8, other: u32, later: u8)
    requires
        s.wf(),
        0 <= core < 2,
        len > 0,
    ensures
        s.keeping(core, pc, len).lookup(core, pc) == Some(len),
        place(other) != place(pc) ==> s.keeping(core, pc, len).keeping(core, other, later).lookup(
            core,
            pc,
        ) == Some(len),
        s.keeping(core, pc, len).lookup(1 - core, other) == s.lookup(1 - core, other),
        other != pc && place(other) == place(pc) && later > 0 ==> s.keeping(
            core,
            pc,
            len,
        ).keeping(core, other, later).lookup(core, pc) is None,
{
}

} // verus!
