//! Dispatch: resolving a payload's selector, validating the declared
//! target, and describing the call that forwards the payload.

use crate::account::AccountHandle;
use crate::error::DiamondError;
use crate::instruction::{parse_payload, parse_payload_data};
use crate::pubkey::Pubkey;
use crate::state::{fixed_bytes, lookup_module, padded, to_fixed_bytes, DiamondState, DiamondStateView, Selector};
use vstd::prelude::*;
use vstd::slice::{slice_subrange, slice_to_vec};

verus! {

/// Bytes of a selector at the front of a payload.
pub const SELECTOR_LEN: usize = 4;

/// The selector at the front of `payload`.
pub open spec fn spec_selector_of(payload: Seq<u8>) -> Selector {
    fixed_bytes::<4>(payload.take(4))
}

/// A call to forward: the target program, the handles it receives and its
/// payload.
#[derive(Debug)]
pub struct ForwardCall {
    pub program_id: Pubkey,
    pub accounts: Vec<AccountHandle>,
    pub data: Vec<u8>,
}

/// Where a payload for `declared` is routed in `s`: the target to invoke, or
/// the error that ends the dispatch.
pub open spec fn route_outcome(s: DiamondStateView, declared: Pubkey, payload: Seq<u8>) -> Result<
    Pubkey,
    DiamondError,
> {
    if s.is_paused {
        Err(DiamondError::DiamondPaused)
    } else if payload.len() < SELECTOR_LEN {
        Err(DiamondError::InvalidInstructionData)
    } else {
        match lookup_module(s.selectors, spec_selector_of(payload)) {
            None => Err(DiamondError::ModuleNotFound),
            Some(m) => if m != declared {
                Err(DiamondError::UnauthorizedAccess)
            } else {
                Ok(m)
            },
        }
    }
}

/// The selector at the front of `payload`; payloads shorter than a selector
/// are rejected.
pub fn selector_of(payload: &[u8]) -> (r: Result<Selector, DiamondError>)
    ensures
        payload@.len() < SELECTOR_LEN ==> r == Err::<Selector, DiamondError>(
            DiamondError::InvalidInstructionData,
        ),
        payload@.len() >= SELECTOR_LEN ==> r == Ok::<Selector, DiamondError>(
            spec_selector_of(payload@),
        ),
        r matches Ok(sel) ==> sel@ == payload@.take(4),
{
    if payload.len() < SELECTOR_LEN {
        return Err(DiamondError::InvalidInstructionData);
    }
    let head = slice_subrange(payload, 0, SELECTOR_LEN);
    let sel = to_fixed_bytes::<4>(head);
    assert(padded(payload@.take(4), 4) =~= payload@.take(4));
    Ok(sel)
}

/// Resolves the payload's selector, checks the declared target against the
/// registry, and yields the call that forwards the whole payload, unchanged,
/// with every remaining handle and its flags.
pub fn route(
    state: &DiamondState,
    declared: &Pubkey,
    payload: &[u8],
    remaining: &[AccountHandle],
) -> (r: Result<ForwardCall, DiamondError>)
    ensures
        match route_outcome(state@, *declared, payload@) {
            Ok(target) => r matches Ok(call) && call.program_id == target && call.accounts@
                == remaining@ && call.data@ == payload@,
            Err(e) => r matches Err(e2) && e2 == e,
        },
{
    if state.is_paused {
        return Err(DiamondError::DiamondPaused);
    }
    let selector = match selector_of(payload) {
        Ok(s) => s,
        Err(e) => {
            return Err(e);
        },
    };
    let expected = match state.get_module_by_selector(selector) {
        Some(m) => m,
        None => {
            return Err(DiamondError::ModuleNotFound);
        },
    };
    if expected != *declared {
        return Err(DiamondError::UnauthorizedAccess);
    }
    Ok(ForwardCall { program_id: expected, accounts: slice_to_vec(remaining), data: slice_to_vec(payload) })
}

} // verus!

verus! {

/// While the registry is paused every dispatch fails with `DiamondPaused`,
/// whatever the payload and the declared target.
pub proof fn lemma_paused_blocks_dispatch(s: DiamondStateView, declared: Pubkey, payload: Seq<u8>)
    requires
        s.is_paused,
    ensures
        route_outcome(s, declared, payload) == Err::<Pubkey, DiamondError>(
            DiamondError::DiamondPaused,
        ),
{
}

/// With `sel` mapped to a module and the registry not paused, a payload that
/// starts with `sel` is routed to that module when it is the declared target,
/// and fails with `UnauthorizedAccess` for any other declared target.
pub proof fn lemma_dispatch_resolves(
    s: DiamondStateView,
    sel: Selector,
    k: int,
    declared: Pubkey,
    payload: Seq<u8>,
)
    requires
        s.wf(),
        !s.is_paused,
        0 <= k < s.selectors.len(),
        s.selectors[k].selector == sel,
        payload.len() >= SELECTOR_LEN,
        payload.take(4) == sel@,
    ensures
        route_outcome(s, declared, payload) == if declared == s.selectors[k].module {
            Ok::<Pubkey, DiamondError>(declared)
        } else {
            Err::<Pubkey, DiamondError>(DiamondError::UnauthorizedAccess)
        },
{
    assert(sel@ == padded(payload.take(4), 4)) by {
        assert(padded(payload.take(4), 4) =~= payload.take(4));
    }
    crate::state::lemma_fixed_bytes::<4>(sel, payload.take(4));
    crate::state::lemma_lookup_unique(s.selectors, sel, k);
}

} // verus!

verus! {

/// What a dispatch instruction does: the target and payload to forward, or
/// the error that ends it.
pub open spec fn dispatch_outcome(
    s: DiamondStateView,
    state_account: AccountHandle,
    declared: Pubkey,
    data: Seq<u8>,
) -> Result<(Pubkey, Seq<u8>), DiamondError> {
    if !state_account.is_writable {
        Err(DiamondError::InvalidAccountData)
    } else if s.is_paused {
        Err(DiamondError::DiamondPaused)
    } else {
        match parse_payload(data) {
            None => Err(DiamondError::InvalidInstructionData),
            Some(payload) => match route_outcome(s, declared, payload) {
                Ok(target) => Ok((target, payload)),
                Err(e) => Err(e),
            },
        }
    }
}

/// Handles a dispatch instruction: `data` holds the length-prefixed payload
/// for the module `module` declares; the call to forward carries that
/// payload and every handle of `remaining`.
pub fn dispatch(
    state: &DiamondState,
    state_account: &AccountHandle,
    module: &AccountHandle,
    remaining: &[AccountHandle],
    data: &[u8],
) -> (r: Result<ForwardCall, DiamondError>)
    ensures
        match dispatch_outcome(state@, *state_account, module.key, data@) {
            Ok((target, payload)) => r matches Ok(call) && call.program_id == target
                && call.accounts@ == remaining@ && call.data@ == payload,
            Err(e) => r matches Err(e2) && e2 == e,
        },
{
    if !state_account.is_writable {
        return Err(DiamondError::InvalidAccountData);
    }
    if state.is_paused {
        return Err(DiamondError::DiamondPaused);
    }
    let payload = match parse_payload_data(data) {
        Ok(p) => p,
        Err(e) => return Err(e),
    };
    route(state, &module.key, payload.as_slice(), remaining)
}

/// While the registry is paused a dispatch through a writable state account
/// fails with `DiamondPaused`, whatever its data and declared target.
pub proof fn lemma_paused_blocks_dispatch_instruction(
    s: DiamondStateView,
    state_account: AccountHandle,
    declared: Pubkey,
    data: Seq<u8>,
)
    requires
        s.is_paused,
        state_account.is_writable,
    ensures
        dispatch_outcome(s, state_account, declared, data) == Err::<(Pubkey, Seq<u8>), DiamondError>(
            DiamondError::DiamondPaused,
        ),
{
}

} // verus!
