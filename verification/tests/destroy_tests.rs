use dpe::destroy_context::{DestroyCtxCmd, DestroyCtxFlags};
use dpe::dpe_instance::{Context, ContextHandle, ContextState, DpeInstance, MAX_HANDLES};
use dpe::response::{DpeErrorCode, Response, ResponseHdr};

const SIMULATION_HANDLE: [u8; 16] = [255; 16];

fn handle_for(tag: u8) -> ContextHandle {
    let mut bytes = vec![0u8; 16];
    bytes[0] = tag;
    ContextHandle(bytes)
}

fn inactive_context() -> Context {
    Context {
        handle: ContextHandle(vec![0u8; 16]),
        locality: 0,
        parent_idx: 0xFF,
        children: 0,
        state: ContextState::Inactive,
    }
}

/// A table with an active chain: slot 0 is the root with children 1 and 2,
/// slot 1 has child 3; slot 4 is an unrelated active context.
fn test_instance() -> DpeInstance {
    let mut contexts = Vec::new();
    for _ in 0..MAX_HANDLES {
        contexts.push(inactive_context());
    }
    contexts[0] = Context {
        handle: handle_for(10),
        locality: 1,
        parent_idx: 0xFF,
        children: (1 << 1) | (1 << 2),
        state: ContextState::Active,
    };
    contexts[1] = Context {
        handle: handle_for(11),
        locality: 1,
        parent_idx: 0,
        children: 1 << 3,
        state: ContextState::Active,
    };
    contexts[2] = Context {
        handle: handle_for(12),
        locality: 1,
        parent_idx: 0,
        children: 0,
        state: ContextState::Active,
    };
    contexts[3] = Context {
        handle: handle_for(13),
        locality: 1,
        parent_idx: 1,
        children: 0,
        state: ContextState::Active,
    };
    contexts[4] = Context {
        handle: handle_for(14),
        locality: 2,
        parent_idx: 0xFF,
        children: 0,
        state: ContextState::Active,
    };
    DpeInstance { contexts }
}

#[test]
fn test_deserialize_destroy_context() {
    let test_destroy_ctx_cmd = DestroyCtxCmd {
        handle: ContextHandle(SIMULATION_HANDLE.to_vec()),
        flags: DestroyCtxFlags(0x1234_5678),
    };

    let mut command = SIMULATION_HANDLE.to_vec();
    command.extend(0x1234_5678u32.to_le_bytes());
    assert_eq!(
        Ok(test_destroy_ctx_cmd),
        DestroyCtxCmd::deserialize(&command)
    );
}

#[test]
fn test_deserialize_destroy_context_short_buffer() {
    let bytes = [0u8; 19];
    assert_eq!(
        Err(DpeErrorCode::InternalError),
        DestroyCtxCmd::deserialize(&bytes)
    );
}

#[test]
fn test_destroy_self() {
    // DESTROY without the children flag marks exactly the target slot
    // inactive; siblings and parent are unchanged.
    let mut dpe = test_instance();
    let before = dpe.contexts.clone();
    let cmd = DestroyCtxCmd {
        handle: handle_for(11),
        flags: DestroyCtxFlags(0),
    };
    let resp = cmd.execute(&mut dpe, 1);
    assert_eq!(
        resp,
        Ok(Response::DestroyCtx(ResponseHdr {
            err_code: DpeErrorCode::NoError
        }))
    );
    assert_eq!(dpe.contexts[1].state, ContextState::Inactive);
    for i in 0..MAX_HANDLES {
        if i == 1 {
            let mut expected = before[i].clone();
            expected.state = ContextState::Inactive;
            assert_eq!(dpe.contexts[i], expected);
        } else {
            assert_eq!(dpe.contexts[i], before[i]);
        }
    }
}

#[test]
fn test_destroy_subtree() {
    // With DESTROY_CHILDREN set, every transitive descendant becomes
    // inactive in a single call.
    let mut dpe = test_instance();
    let before = dpe.contexts.clone();
    let cmd = DestroyCtxCmd {
        handle: handle_for(10),
        flags: DestroyCtxFlags(DestroyCtxFlags::DESTROY_CHILDREN_FLAG_MASK),
    };
    let resp = cmd.execute(&mut dpe, 1);
    assert_eq!(
        resp,
        Ok(Response::DestroyCtx(ResponseHdr {
            err_code: DpeErrorCode::NoError
        }))
    );
    for i in [0usize, 1, 2, 3] {
        assert_eq!(dpe.contexts[i].state, ContextState::Inactive);
    }
    // The unrelated context is untouched.
    assert_eq!(dpe.contexts[4], before[4]);
}

#[test]
fn test_destroy_wrong_locality() {
    // A caller in the wrong locality gets InvalidLocality and mutates
    // nothing.
    let mut dpe = test_instance();
    let before = dpe.contexts.clone();
    let cmd = DestroyCtxCmd {
        handle: handle_for(10),
        flags: DestroyCtxFlags(DestroyCtxFlags::DESTROY_CHILDREN_FLAG_MASK),
    };
    let resp = cmd.execute(&mut dpe, 2);
    assert_eq!(resp, Err(DpeErrorCode::InvalidLocality));
    assert_eq!(dpe.contexts, before);
}

#[test]
fn test_destroy_unknown_handle() {
    // A handle that matches no active slot gets InvalidHandle and mutates
    // nothing.
    let mut dpe = test_instance();
    let before = dpe.contexts.clone();
    let cmd = DestroyCtxCmd {
        handle: handle_for(99),
        flags: DestroyCtxFlags(0),
    };
    let resp = cmd.execute(&mut dpe, 1);
    assert_eq!(resp, Err(DpeErrorCode::InvalidHandle));
    assert_eq!(dpe.contexts, before);
}

#[test]
fn test_destroy_inactive_handle_is_unknown() {
    // A destroyed slot no longer resolves: destroy is idempotent through
    // the handle lookup.
    let mut dpe = test_instance();
    let cmd = DestroyCtxCmd {
        handle: handle_for(12),
        flags: DestroyCtxFlags(0),
    };
    cmd.execute(&mut dpe, 1).unwrap();
    assert_eq!(
        cmd.execute(&mut dpe, 1),
        Err(DpeErrorCode::InvalidHandle)
    );
}
