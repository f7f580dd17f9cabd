//! The pause gate that dispatch consults.

use crate::account::AccountHandle;
use crate::error::DiamondError;
use crate::instruction::{parse_flag, parse_flag_data};
use crate::pubkey::Pubkey;
use crate::state::{fixed_bytes, to_fixed_bytes, DiamondState, DiamondStateView};
use vstd::prelude::*;

verus! {

/// Longest pause reason, in bytes.
pub const PAUSE_REASON_LEN: usize = 64;

/// What setting the pause flag to `paused`, with `reason`, at time `now`, on
/// behalf of `caller` does to `s`. The time is recorded while paused.
pub open spec fn set_paused_outcome(
    s: DiamondStateView,
    caller: Pubkey,
    paused: bool,
    reason: Seq<u8>,
    now: i64,
) -> Result<DiamondStateView, DiamondError> {
    if !s.has_authority(caller) {
        Err(DiamondError::UnauthorizedAccess)
    } else if reason.len() > PAUSE_REASON_LEN {
        Err(DiamondError::InvalidInstructionData)
    } else {
        Ok(
            DiamondStateView {
                is_paused: paused,
                paused_at: if paused {
                    Some(now)
                } else {
                    None
                },
                pause_reason: fixed_bytes::<64>(reason),
                ..s
            },
        )
    }
}

/// Sets or clears the pause flag. On any error the registry is unchanged.
pub fn set_paused(
    state: &mut DiamondState,
    caller: &Pubkey,
    paused: bool,
    reason: &[u8],
    now: i64,
) -> (r: Result<(), DiamondError>)
    ensures
        match set_paused_outcome(old(state)@, *caller, paused, reason@, now) {
            Ok(v) => r is Ok && final(state)@ == v,
            Err(e) => r == Err::<(), DiamondError>(e) && final(state)@ == old(state)@,
        },
{
    if !state.has_authority(caller) {
        return Err(DiamondError::UnauthorizedAccess);
    }
    if reason.len() > PAUSE_REASON_LEN {
        return Err(DiamondError::InvalidInstructionData);
    }
    state.is_paused = paused;
    state.paused_at = if paused {
        Some(now)
    } else {
        None
    };
    state.pause_reason = to_fixed_bytes::<64>(reason);
    Ok(())
}

} // verus!

verus! {

/// What a pause instruction signed (or not) by `authority` does at time `now`.
pub open spec fn pause_instruction_outcome(
    s: DiamondStateView,
    authority: AccountHandle,
    data: Seq<u8>,
    now: i64,
) -> Result<DiamondStateView, DiamondError> {
    if !authority.is_signer {
        Err(DiamondError::MissingRequiredSignature)
    } else {
        match parse_flag(data) {
            None => Err(DiamondError::InvalidInstructionData),
            Some(p) => set_paused_outcome(s, authority.key, p, Seq::empty(), now),
        }
    }
}

/// Handles a pause instruction: an authority must sign, `data` holds the new
/// value of the flag; `now` is the current time.
pub fn pause(state: &mut DiamondState, authority: &AccountHandle, data: &[u8], now: i64) -> (r:
    Result<(), DiamondError>)
    ensures
        match pause_instruction_outcome(old(state)@, *authority, data@, now) {
            Ok(v) => r is Ok && final(state)@ == v,
            Err(e) => r == Err::<(), DiamondError>(e) && final(state)@ == old(state)@,
        },
{
    if !authority.is_signer {
        return Err(DiamondError::MissingRequiredSignature);
    }
    let paused = match parse_flag_data(data) {
        Ok(p) => p,
        Err(e) => return Err(e),
    };
    let no_reason: Vec<u8> = Vec::new();
    set_paused(state, &authority.key, paused, no_reason.as_slice(), now)
}

} // verus!
