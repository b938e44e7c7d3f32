//! The context-destroy command: locality-checked destruction of a context
//! and, on request, its transitive descendant closure.

use vstd::prelude::*;

use crate::dpe_instance::{
    context_matches, spec_active_pos, spec_descendants, Context, ContextHandle, ContextState,
    DpeInstance, CONTEXT_HANDLE_SIZE, MAX_HANDLES,
};
use crate::response::{DpeErrorCode, Response, ResponseHdr};

verus! {

/// Flag word of the destroy command. Bit 31 requests destruction of the
/// target's descendants; the remaining bits are reserved and not validated.
#[derive(Clone, Copy, Debug, PartialEq, Eq, Structural)]
pub struct DestroyCtxFlags(pub u32);

impl DestroyCtxFlags {
    pub const DESTROY_CHILDREN_FLAG_MASK: u32 = 1u32 << 31;
}

/// The little-endian value of four bytes.
pub open spec fn spec_u32_le(b: Seq<u8>) -> u32
    recommends
        b.len() == 4,
{
    (b[0] + 256 * (b[1] + 256 * (b[2] + 256 * (b[3] as u32)))) as u32
}

/// The destroy command payload: the 16-byte target handle, then the flag
/// word.
#[derive(Clone, Debug, PartialEq, Eq)]
pub struct DestroyCtxCmd {
    pub handle: ContextHandle,
    pub flags: DestroyCtxFlags,
}

impl DestroyCtxCmd {
    pub open spec fn spec_destroy_descendants(&self) -> bool {
        self.flags.0 & (1u32 << 31) != 0
    }

    pub fn flag_is_destroy_descendants(&self) -> (r: bool)
        ensures
            r == self.spec_destroy_descendants(),
    {
        self.flags.0 & DestroyCtxFlags::DESTROY_CHILDREN_FLAG_MASK != 0
    }

    /// Parse the 20-byte little-endian wire form: 16 handle bytes followed
    /// by the 32-bit flag word. Reserved flag bits are accepted as they
    /// come.
    pub fn deserialize(bytes: &[u8]) -> (r: Result<DestroyCtxCmd, DpeErrorCode>)
        ensures
            match r {
                Ok(cmd) => {
                    &&& bytes@.len() >= 20
                    &&& cmd.handle.0@ == bytes@.subrange(0, CONTEXT_HANDLE_SIZE as int)
                    &&& cmd.handle.wf()
                    &&& cmd.flags.0 == spec_u32_le(
                        bytes@.subrange(CONTEXT_HANDLE_SIZE as int, CONTEXT_HANDLE_SIZE + 4),
                    )
                },
                Err(e) => e == DpeErrorCode::InternalError && bytes@.len() < 20,
            },
    {
        if bytes.len() < 20 {
            return Err(DpeErrorCode::InternalError);
        }
        let mut handle_bytes: Vec<u8> = Vec::new();
        let mut i: usize = 0;
        while i < CONTEXT_HANDLE_SIZE
            invariant
                i <= CONTEXT_HANDLE_SIZE,
                bytes@.len() >= 20,
                handle_bytes@.len() == i,
                forall|j: int| 0 <= j < i ==> handle_bytes@[j] == bytes@[j],
            decreases CONTEXT_HANDLE_SIZE - i,
        {
            handle_bytes.push(bytes[i]);
            i += 1;
        }
        proof {
            assert(handle_bytes@ =~= bytes@.subrange(0, CONTEXT_HANDLE_SIZE as int));
        }
        let flags: u32 = (bytes[16] as u32) + 256 * ((bytes[17] as u32) + 256 * ((bytes[18] as u32)
            + 256 * (bytes[19] as u32)));
        proof {
            let fb = bytes@.subrange(CONTEXT_HANDLE_SIZE as int, CONTEXT_HANDLE_SIZE + 4);
            assert(fb[0] == bytes@[16] && fb[1] == bytes@[17] && fb[2] == bytes@[18] && fb[3]
                == bytes@[19]);
        }
        Ok(DestroyCtxCmd { handle: ContextHandle(handle_bytes), flags: DestroyCtxFlags(flags) })
    }

    /// The bitmap of slots this command retires: the target, and with the
    /// descendants flag set also its transitive descendant closure.
    pub open spec fn spec_destroy_set(&self, ctxs: Seq<Context>, idx: int) -> u32 {
        if self.spec_destroy_descendants() {
            (1u32 << (idx as u32)) | spec_descendants(ctxs, ctxs[idx])
        } else {
            1u32 << (idx as u32)
        }
    }

    /// Execute the command against the instance's context table for the
    /// calling locality: resolve the handle, check the locality, and retire
    /// every slot in the destroy set. Slots outside the set are untouched,
    /// and on any error the table is untouched.
    #[verifier::loop_isolation(false)]
    pub fn execute(&self, dpe: &mut DpeInstance, locality: u32) -> (r: Result<
        Response,
        DpeErrorCode,
    >)
        requires
            old(dpe).wf(),
        ensures
            final(dpe).wf(),
            match r {
                Ok(resp) => match spec_active_pos(old(dpe).contexts@, self.handle.0@) {
                    Some(idx) => {
                        &&& old(dpe).contexts@[idx].locality == locality
                        &&& resp == Response::DestroyCtx(
                            ResponseHdr { err_code: DpeErrorCode::NoError },
                        )
                        &&& forall|j: int|
                            0 <= j < MAX_HANDLES ==> final(dpe).contexts@[j] == (
                            if self.spec_destroy_set(old(dpe).contexts@, idx) & (1u32 << (
                            j as u32)) != 0 {
                                old(dpe).contexts@[j].spec_destroyed()
                            } else {
                                old(dpe).contexts@[j]
                            })
                    },
                    None => false,
                },
                Err(e) => {
                    &&& *final(dpe) == *old(dpe)
                    &&& (e == DpeErrorCode::InvalidHandle || e == DpeErrorCode::InvalidLocality)
                    &&& (e == DpeErrorCode::InvalidHandle <==> spec_active_pos(
                        old(dpe).contexts@,
                        self.handle.0@,
                    ) is None)
                    &&& (e == DpeErrorCode::InvalidLocality ==> match spec_active_pos(
                        old(dpe).contexts@,
                        self.handle.0@,
                    ) {
                        Some(idx) => old(dpe).contexts@[idx].locality != locality,
                        None => false,
                    })
                },
            },
    {
        let idx = match dpe.get_active_context_pos(&self.handle) {
            Ok(i) => i,
            Err(e) => {
                return Err(e);
            },
        };
        let context_locality = dpe.contexts[idx].locality;
        // Make sure the command is coming from the right locality.
        if context_locality != locality {
            return Err(DpeErrorCode::InvalidLocality);
        }

        let to_destroy: u32 = if self.flag_is_destroy_descendants() {
            // The descendant query is total on a well-formed table.
            let descendants = match dpe.get_descendants(&dpe.contexts[idx]) {
                Ok(d) => d,
                Err(_) => {
                    return Err(DpeErrorCode::InvalidHandle);
                },
            };
            (1u32 << (idx as u32)) | descendants
        } else {
            1u32 << (idx as u32)
        };

        let ghost start = dpe.contexts@;
        let mut j: usize = 0;
        while j < MAX_HANDLES
            invariant
                j <= MAX_HANDLES,
                dpe.wf(),
                dpe.contexts@.len() == start.len(),
                forall|k: int|
                    0 <= k < j ==> dpe.contexts@[k] == (if to_destroy & (1u32 << (k as u32)) != 0 {
                        start[k].spec_destroyed()
                    } else {
                        start[k]
                    }),
                forall|k: int| j <= k < MAX_HANDLES ==> dpe.contexts@[k] == start[k],
            decreases MAX_HANDLES - j,
        {
            if to_destroy & (1u32 << (j as u32)) != 0 {
                // Guards against malformed bitmaps; the table is full-sized.
                if j >= dpe.contexts.len() {
                    return Err(DpeErrorCode::InternalError);
                }
                dpe.contexts[j].destroy();
            }
            j += 1;
        }
        Ok(Response::DestroyCtx(ResponseHdr::new(DpeErrorCode::NoError)))
    }
}

} // verus!
