//! The resource handles that operations receive.

use crate::pubkey::Pubkey;
use vstd::prelude::*;

verus! {

/// A resource handle handed to an operation: an identity and its
/// permission flags.
#[derive(Clone, Copy, Debug)]
pub struct AccountHandle {
    pub key: Pubkey,
    pub is_signer: bool,
    pub is_writable: bool,
}

impl AccountHandle {
    pub fn new(key: Pubkey, is_signer: bool, is_writable: bool) -> (r: AccountHandle)
        ensures
            r == (AccountHandle { key, is_signer, is_writable }),
    {
        AccountHandle { key, is_signer, is_writable }
    }
}

} // verus!
