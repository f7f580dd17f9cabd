//! Access control: who may change the registry, and the admin set.

use crate::account::AccountHandle;
use crate::error::DiamondError;
use crate::instruction::{parse_key, parse_key_data};
use crate::pubkey::Pubkey;
use crate::state::{DiamondState, DiamondStateView, MAX_ADMINS};
use vstd::prelude::*;

verus! {

/// What adding `new_admin` on behalf of `caller` does to `s`. Only the owner
/// may add admins; adding one that is already listed changes nothing.
pub open spec fn add_admin_outcome(s: DiamondStateView, caller: Pubkey, new_admin: Pubkey) -> Result<
    DiamondStateView,
    DiamondError,
> {
    if !s.is_owner(caller) {
        Err(DiamondError::UnauthorizedAccess)
    } else if s.admins.len() >= MAX_ADMINS {
        Err(DiamondError::AdminCapacityExceeded)
    } else if s.admins.contains(new_admin) {
        Ok(s)
    } else {
        Ok(DiamondStateView { admins: s.admins.push(new_admin), ..s })
    }
}

/// Adds `new_admin` to the admin set. On any error the registry is unchanged.
pub fn grant_admin(state: &mut DiamondState, caller: &Pubkey, new_admin: Pubkey) -> (r: Result<
    (),
    DiamondError,
>)
    ensures
        match add_admin_outcome(old(state)@, *caller, new_admin) {
            Ok(v) => r is Ok && final(state)@ == v,
            Err(e) => r == Err::<(), DiamondError>(e) && final(state)@ == old(state)@,
        },
{
    if !state.is_owner(caller) {
        return Err(DiamondError::UnauthorizedAccess);
    }
    if state.admins.len() >= MAX_ADMINS {
        return Err(DiamondError::AdminCapacityExceeded);
    }
    if !state.is_admin(&new_admin) {
        state.admins.push(new_admin);
    }
    Ok(())
}

} // verus!

verus! {

/// An identity that is neither owner nor admin can change nothing: adding or
/// removing a module, adding an admin and setting the pause flag all fail
/// with `UnauthorizedAccess`, which leaves the registry unchanged.
pub proof fn lemma_authority_gate(
    s: DiamondStateView,
    caller: Pubkey,
    a: crate::cut::AddModuleDataView,
    sel: crate::state::Selector,
    new_admin: Pubkey,
    paused: bool,
    reason: Seq<u8>,
    now: i64,
)
    requires
        !s.has_authority(caller),
    ensures
        crate::cut::add_module_outcome(s, caller, a) == Err::<DiamondStateView, DiamondError>(
            DiamondError::UnauthorizedAccess,
        ),
        crate::cut::remove_module_outcome(s, caller, sel) == Err::<DiamondStateView, DiamondError>(
            DiamondError::UnauthorizedAccess,
        ),
        add_admin_outcome(s, caller, new_admin) == Err::<DiamondStateView, DiamondError>(
            DiamondError::UnauthorizedAccess,
        ),
        crate::pause::set_paused_outcome(s, caller, paused, reason, now) == Err::<
            DiamondStateView,
            DiamondError,
        >(DiamondError::UnauthorizedAccess),
{
}

} // verus!

verus! {

/// What an add-admin instruction signed (or not) by `authority` does.
pub open spec fn add_admin_instruction_outcome(
    s: DiamondStateView,
    authority: AccountHandle,
    data: Seq<u8>,
) -> Result<DiamondStateView, DiamondError> {
    if !authority.is_signer {
        Err(DiamondError::MissingRequiredSignature)
    } else {
        match parse_key(data) {
            None => Err(DiamondError::InvalidInstructionData),
            Some(k) => add_admin_outcome(s, authority.key, k),
        }
    }
}

/// Handles an add-admin instruction: the owner must sign, `data` holds the
/// new admin's key.
pub fn add_admin(state: &mut DiamondState, authority: &AccountHandle, data: &[u8]) -> (r: Result<
    (),
    DiamondError,
>)
    ensures
        match add_admin_instruction_outcome(old(state)@, *authority, data@) {
            Ok(v) => r is Ok && final(state)@ == v,
            Err(e) => r == Err::<(), DiamondError>(e) && final(state)@ == old(state)@,
        },
{
    if !authority.is_signer {
        return Err(DiamondError::MissingRequiredSignature);
    }
    let new_admin = match parse_key_data(data) {
        Ok(k) => k,
        Err(e) => return Err(e),
    };
    grant_admin(state, &authority.key, new_admin)
}

} // verus!
