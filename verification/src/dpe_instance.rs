//! DPE instance state: measurement nodes and the fixed-size context table.

use vstd::prelude::*;

use crate::response::DpeErrorCode;
use crate::DPE_PROFILE;

verus! {

/// One TCI digest; well formed when it is exactly one profile hash long.
#[derive(Clone, Debug, PartialEq, Eq)]
pub struct TciMeasurement(pub Vec<u8>);

impl TciMeasurement {
    pub open spec fn wf(&self) -> bool {
        self.0@.len() == DPE_PROFILE.spec_hash_size()
    }
}

/// Flag bit of `TciNodeData::flags` marking a node as internal
/// (vendor-emitted) rather than user-derived.
pub const INTERNAL_FLAG_MASK: u32 = 1u32 << 31;

/// A measurement node: current and cumulative digests, a 32-bit type, and
/// flags distinguishing internal from user nodes.
#[derive(Clone, Debug, PartialEq, Eq)]
pub struct TciNodeData {
    pub tci_type: u32,
    pub tci_cumulative: TciMeasurement,
    pub tci_current: TciMeasurement,
    pub flags: u32,
}

impl TciNodeData {
    pub open spec fn wf(&self) -> bool {
        self.tci_current.wf() && self.tci_cumulative.wf()
    }

    pub open spec fn spec_is_internal(&self) -> bool {
        self.flags & INTERNAL_FLAG_MASK != 0
    }

    /// A fresh user node with zeroed digests and type.
    pub fn new() -> (r: TciNodeData)
        ensures
            r.wf(),
            r.tci_type == 0,
            r.flags == 0,
            !r.spec_is_internal(),
            forall|i: int| 0 <= i < r.tci_current.0@.len() ==> r.tci_current.0@[i] == 0,
            forall|i: int| 0 <= i < r.tci_cumulative.0@.len() ==> r.tci_cumulative.0@[i] == 0,
    {
        let size = DPE_PROFILE.get_hash_size();
        let mut current: Vec<u8> = Vec::new();
        let mut cumulative: Vec<u8> = Vec::new();
        let mut i: usize = 0;
        while i < size
            invariant
                i <= size,
                current@.len() == i,
                cumulative@.len() == i,
                forall|j: int| 0 <= j < i ==> current@[j] == 0,
                forall|j: int| 0 <= j < i ==> cumulative@[j] == 0,
            decreases size - i,
        {
            current.push(0);
            cumulative.push(0);
            i += 1;
        }
        proof {
            assert(0u32 & INTERNAL_FLAG_MASK == 0) by (bit_vector);
        }
        TciNodeData {
            tci_type: 0,
            tci_cumulative: TciMeasurement(cumulative),
            tci_current: TciMeasurement(current),
            flags: 0,
        }
    }

    pub fn flag_is_internal(&self) -> (r: bool)
        ensures
            r == self.spec_is_internal(),
    {
        self.flags & INTERNAL_FLAG_MASK != 0
    }
}

/// Capacity of the context table.
pub const MAX_HANDLES: usize = 24;

/// Length in bytes of a context handle.
pub const CONTEXT_HANDLE_SIZE: usize = 16;

/// Opaque handle naming a context slot; well formed at exactly 16 bytes.
#[derive(Clone, Debug, PartialEq, Eq)]
pub struct ContextHandle(pub Vec<u8>);

impl ContextHandle {
    pub open spec fn wf(&self) -> bool {
        self.0@.len() == CONTEXT_HANDLE_SIZE
    }

    pub fn equals(&self, other: &ContextHandle) -> (r: bool)
        ensures
            r == (self.0@ == other.0@),
    {
        if self.0.len() != other.0.len() {
            return false;
        }
        let n = self.0.len();
        let mut i: usize = 0;
        while i < n
            invariant
                i <= n,
                n == self.0@.len(),
                n == other.0@.len(),
                forall|j: int| 0 <= j < i ==> self.0@[j] == other.0@[j],
            decreases n - i,
        {
            if self.0[i] != other.0[i] {
                return false;
            }
            i += 1;
        }
        proof {
            assert(self.0@ =~= other.0@);
        }
        true
    }
}

/// Lifecycle state of one context slot.
#[derive(Clone, Copy, Debug, PartialEq, Eq, Structural)]
pub enum ContextState {
    /// Never initialized, or destroyed.
    Inactive,
    /// Initialized and in use.
    Active,
}

/// One slot of the context table.
#[derive(Clone, Debug, PartialEq, Eq)]
pub struct Context {
    pub handle: ContextHandle,
    /// Locality the context belongs to.
    pub locality: u32,
    /// Index of the parent context in the table; `0xFF` for a root.
    pub parent_idx: u8,
    /// Bitmap over the table of this context's direct children.
    pub children: u32,
    pub state: ContextState,
}

impl Context {
    /// The same slot, retired.
    pub open spec fn spec_destroyed(self) -> Context {
        Context { state: ContextState::Inactive, ..self }
    }

    /// Retire the slot; destroying an inactive slot is a no-op.
    pub fn destroy(&mut self)
        ensures
            *final(self) == old(self).spec_destroyed(),
    {
        self.state = ContextState::Inactive;
    }
}

/// An active slot carrying the given handle bytes.
pub open spec fn context_matches(c: Context, handle: Seq<u8>) -> bool {
    c.state == ContextState::Active && c.handle.0@ == handle
}

/// Index of the first active slot carrying the handle, if any.
pub open spec fn spec_active_pos(ctxs: Seq<Context>, handle: Seq<u8>) -> Option<int>
    decreases ctxs.len(),
{
    if ctxs.len() == 0 {
        None
    } else if context_matches(ctxs[0], handle) {
        Some(0)
    } else {
        match spec_active_pos(ctxs.drop_first(), handle) {
            Some(i) => Some(i + 1),
            None => None,
        }
    }
}

/// `spec_active_pos` names the first matching slot, and `None` means no
/// slot matches.
pub proof fn lemma_active_pos(ctxs: Seq<Context>, handle: Seq<u8>)
    ensures
        match spec_active_pos(ctxs, handle) {
            Some(i) => 0 <= i < ctxs.len() && context_matches(ctxs[i], handle) && forall|j: int|
                0 <= j < i ==> !context_matches(ctxs[j], handle),
            None => forall|j: int| 0 <= j < ctxs.len() ==> !context_matches(ctxs[j], handle),
        },
    decreases ctxs.len(),
{
    if ctxs.len() > 0 && !context_matches(ctxs[0], handle) {
        lemma_active_pos(ctxs.drop_first(), handle);
        assert(forall|j: int| 1 <= j < ctxs.len() ==> ctxs[j] == ctxs.drop_first()[j - 1]);
    }
}

/// One fold of every listed slot's children into the bitmap: the union of
/// `d` with the children of each table slot whose bit is set in `d`,
/// considering slots below `k`.
pub open spec fn spec_child_union(ctxs: Seq<Context>, d: u32, k: nat) -> u32
    decreases k,
{
    if k == 0 {
        d
    } else {
        let j = (k - 1) as nat;
        let prev = spec_child_union(ctxs, d, j);
        if d & (1u32 << (j as u32)) != 0 {
            prev | ctxs[j as int].children
        } else {
            prev
        }
    }
}

/// One closure step over the whole table.
pub open spec fn spec_closure_step(ctxs: Seq<Context>, d: u32) -> u32 {
    spec_child_union(ctxs, d, MAX_HANDLES as nat)
}

/// `k` closure steps from `d`.
pub open spec fn spec_descendants_iter(ctxs: Seq<Context>, d: u32, k: nat) -> u32
    decreases k,
{
    if k == 0 {
        d
    } else {
        spec_descendants_iter(ctxs, spec_closure_step(ctxs, d), (k - 1) as nat)
    }
}

/// Bitmap of the transitive descendants of a context: its children's
/// bitmaps folded in for as many rounds as the table has slots, which
/// exhausts any descendant chain.
pub open spec fn spec_descendants(ctxs: Seq<Context>, ctx: Context) -> u32 {
    spec_descendants_iter(ctxs, ctx.children, MAX_HANDLES as nat)
}

/// The DPE instance state covered here: the fixed-size context table.
#[derive(Clone, Debug, PartialEq, Eq)]
pub struct DpeInstance {
    pub contexts: Vec<Context>,
}

impl DpeInstance {
    pub open spec fn wf(&self) -> bool {
        self.contexts@.len() == MAX_HANDLES
    }

    /// Find the active context slot carrying `handle`.
    pub fn get_active_context_pos(&self, handle: &ContextHandle) -> (r: Result<
        usize,
        DpeErrorCode,
    >)
        ensures
            match r {
                Ok(i) => spec_active_pos(self.contexts@, handle.0@) == Some(i as int) && i
                    < self.contexts@.len(),
                Err(e) => spec_active_pos(self.contexts@, handle.0@) is None && e
                    == DpeErrorCode::InvalidHandle,
            },
    {
        proof {
            lemma_active_pos(self.contexts@, handle.0@);
        }
        let n = self.contexts.len();
        let mut i: usize = 0;
        while i < n
            invariant
                i <= n,
                n == self.contexts@.len(),
                forall|j: int| 0 <= j < i ==> !context_matches(self.contexts@[j], handle.0@),
            decreases n - i,
        {
            let c = &self.contexts[i];
            let active = match c.state {
                ContextState::Active => true,
                ContextState::Inactive => false,
            };
            if active && c.handle.equals(handle) {
                proof {
                    lemma_active_pos(self.contexts@, handle.0@);
                }
                return Ok(i);
            }
            i += 1;
        }
        Err(DpeErrorCode::InvalidHandle)
    }

    /// Compute the bitmap of `context`'s transitive descendants by folding
    /// children bitmaps over the table, one round per slot.
    pub fn get_descendants(&self, context: &Context) -> (r: Result<u32, DpeErrorCode>)
        requires
            self.wf(),
        ensures
            r == Ok::<u32, DpeErrorCode>(spec_descendants(self.contexts@, *context)),
    {
        let mut d = context.children;
        let mut round: usize = 0;
        while round < MAX_HANDLES
            invariant
                round <= MAX_HANDLES,
                self.wf(),
                spec_descendants_iter(self.contexts@, d, (MAX_HANDLES - round) as nat)
                    == spec_descendants(self.contexts@, *context),
            decreases MAX_HANDLES - round,
        {
            let mut acc = d;
            let mut j: usize = 0;
            while j < MAX_HANDLES
                invariant
                    j <= MAX_HANDLES,
                    self.wf(),
                    acc == spec_child_union(self.contexts@, d, j as nat),
                decreases MAX_HANDLES - j,
            {
                if d & (1u32 << (j as u32)) != 0 {
                    acc = acc | self.contexts[j].children;
                }
                j += 1;
            }
            d = acc;
            round += 1;
        }
        Ok(d)
    }
}

} // verus!
