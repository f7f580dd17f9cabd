//! Creation of a registry at the address derived from its owner.

use crate::account::AccountHandle;
use crate::error::DiamondError;
use crate::instruction::{parse_init, parse_init_data};
use crate::pubkey::Pubkey;
use crate::state::{DiamondState, DiamondStateView};
use vstd::prelude::*;

verus! {

/// The domain tag that, with the owner's key, derives a registry's address.
pub const STATE_SEED: [u8; 13] = [100, 105, 97, 109, 111, 110, 100, 95, 115, 116, 97, 116, 101];

/// The program address and bump seed derived from `seeds` for `program_id`,
/// if one exists.
pub uninterp spec fn program_address(seeds: Seq<Seq<u8>>, program_id: Seq<u8>) -> Option<
    (Seq<u8>, u8),
>;

/// Relies on `solana_program::pubkey::Pubkey::try_find_program_address`: a
/// function of the seeds and the program id alone, `None` where no bump seed
/// gives an address.
#[verifier::external_body]
fn find_program_address(seed: &[u8], owner: &Pubkey, program_id: &Pubkey) -> (r: Option<
    (Pubkey, u8),
>)
    ensures
        match program_address(seq![seed@, owner.0@], program_id.0@) {
            None => r is None,
            Some((k, bump)) => r matches Some((k2, b2)) && k2.0@ == k && b2 == bump,
        },
{
    let program = solana_program::pubkey::Pubkey::new_from_array(program_id.0);
    solana_program::pubkey::Pubkey::try_find_program_address(&[seed, &owner.0], &program).map(
        |(k, b)| (Pubkey(k.to_bytes()), b),
    )
}

/// Relies on `solana_program::system_program::id`, the address
/// `11111111111111111111111111111111`: thirty-two zero bytes.
#[verifier::external_body]
fn system_program_id() -> (r: Pubkey)
    ensures
        r.is_zero(),
{
    Pubkey(solana_program::system_program::id().to_bytes())
}

/// The registry that an initialize instruction creates at `state_account`,
/// or the error that refuses it. `data` holds the owner's key and the bump.
pub open spec fn initialize_outcome(
    program_id: Pubkey,
    state_account: AccountHandle,
    owner: AccountHandle,
    payer: AccountHandle,
    system_program: AccountHandle,
    data: Seq<u8>,
) -> Result<DiamondStateView, DiamondError> {
    if !owner.is_signer || !payer.is_signer {
        Err(DiamondError::MissingRequiredSignature)
    } else if !system_program.key.is_zero() {
        Err(DiamondError::IncorrectProgramId)
    } else {
        match parse_init(data) {
            None => Err(DiamondError::InvalidInstructionData),
            Some((owner_key, bump)) => match program_address(
                seq![STATE_SEED@, owner_key.0@],
                program_id.0@,
            ) {
                None => Err(DiamondError::InvalidPDA),
                Some((address, expected_bump)) => if state_account.key.0@ != address || bump
                    != expected_bump {
                    Err(DiamondError::InvalidPDA)
                } else {
                    Ok(DiamondStateView::initial(owner_key, bump))
                },
            },
        }
    }
}

/// Checks an initialize instruction and yields the fresh registry to store at
/// `state_account`: owner and payer sign, the system program is the real one,
/// and the account is the one derived from the owner's key with the given bump.
pub fn initialize(
    program_id: &Pubkey,
    state_account: &AccountHandle,
    owner: &AccountHandle,
    payer: &AccountHandle,
    system_program: &AccountHandle,
    data: &[u8],
) -> (r: Result<DiamondState, DiamondError>)
    ensures
        match initialize_outcome(*program_id, *state_account, *owner, *payer, *system_program, data@) {
            Ok(v) => r matches Ok(s) && s@ == v && v.wf(),
            Err(e) => r matches Err(e2) && e2 == e,
        },
{
    if !owner.is_signer || !payer.is_signer {
        return Err(DiamondError::MissingRequiredSignature);
    }
    let system = system_program_id();
    if system_program.key != system {
        proof {
            crate::pubkey::lemma_key_eq(system_program.key, system);
        }
        return Err(DiamondError::IncorrectProgramId);
    }
    proof {
        crate::pubkey::lemma_key_eq(system_program.key, system);
    }
    let (owner_key, bump) = match parse_init_data(data) {
        Ok(x) => x,
        Err(e) => return Err(e),
    };
    let (address, expected_bump) = match find_program_address(STATE_SEED.as_slice(), &owner_key, program_id) {
        Some(x) => x,
        None => return Err(DiamondError::InvalidPDA),
    };
    if state_account.key != address {
        proof {
            crate::pubkey::lemma_key_eq(state_account.key, address);
        }
        return Err(DiamondError::InvalidPDA);
    }
    proof {
        crate::pubkey::lemma_key_eq(state_account.key, address);
    }
    if bump != expected_bump {
        return Err(DiamondError::InvalidPDA);
    }
    Ok(DiamondState::new(owner_key, bump))
}

} // verus!
