//! The errors of the registry.

use vstd::prelude::*;

verus! {

/// Every way an operation of the registry can fail.
#[derive(Clone, Copy, Debug, PartialEq, Eq, Structural)]
pub enum DiamondError {
    /// No selector mapping matches the requested selector.
    ModuleNotFound,
    /// The caller is neither owner nor admin, or the declared target differs
    /// from the registered one.
    UnauthorizedAccess,
    /// A selector of the wrong size or format.
    InvalidSelector,
    /// The module list is full.
    ModuleCapacityExceeded,
    /// The selector list is full.
    SelectorCapacityExceeded,
    /// The selector is already registered.
    SelectorCollision,
    /// Dispatch was attempted while the registry is paused.
    DiamondPaused,
    /// The selector mapping is immutable.
    ImmutableSelector,
    /// The admin list is full.
    AdminCapacityExceeded,
    /// The admin is not registered.
    AdminNotFound,
    /// The claimed state address or bump is not the derived one.
    InvalidPDA,
    /// Instruction data is malformed, undersized, or holds an overlong name.
    InvalidInstructionData,
    /// The stored record does not decode into a well-formed registry.
    InvalidAccountData,
    /// An account that must sign did not.
    MissingRequiredSignature,
    /// The account given as the system program is not the system program.
    IncorrectProgramId,
    /// The record does not fit into the space reserved for it.
    AccountDataTooSmall,
}

impl DiamondError {
    /// The numeric code under which the error is reported to callers.
    pub open spec fn spec_code(self) -> u32 {
        match self {
            DiamondError::ModuleNotFound => 6000,
            DiamondError::UnauthorizedAccess => 6001,
            DiamondError::InvalidSelector => 6002,
            DiamondError::ModuleCapacityExceeded => 6003,
            DiamondError::SelectorCapacityExceeded => 6004,
            DiamondError::SelectorCollision => 6005,
            DiamondError::DiamondPaused => 6006,
            DiamondError::ImmutableSelector => 6007,
            DiamondError::AdminCapacityExceeded => 6008,
            DiamondError::AdminNotFound => 6009,
            DiamondError::InvalidPDA => 6010,
            DiamondError::InvalidInstructionData => 6011,
            DiamondError::InvalidAccountData => 6012,
            DiamondError::MissingRequiredSignature => 6013,
            DiamondError::IncorrectProgramId => 6014,
            DiamondError::AccountDataTooSmall => 6015,
        }
    }

    pub fn code(&self) -> (r: u32)
        ensures
            r == self.spec_code(),
    {
        match self {
            DiamondError::ModuleNotFound => 6000,
            DiamondError::UnauthorizedAccess => 6001,
            DiamondError::InvalidSelector => 6002,
            DiamondError::ModuleCapacityExceeded => 6003,
            DiamondError::SelectorCapacityExceeded => 6004,
            DiamondError::SelectorCollision => 6005,
            DiamondError::DiamondPaused => 6006,
            DiamondError::ImmutableSelector => 6007,
            DiamondError::AdminCapacityExceeded => 6008,
            DiamondError::AdminNotFound => 6009,
            DiamondError::InvalidPDA => 6010,
            DiamondError::InvalidInstructionData => 6011,
            DiamondError::InvalidAccountData => 6012,
            DiamondError::MissingRequiredSignature => 6013,
            DiamondError::IncorrectProgramId => 6014,
            DiamondError::AccountDataTooSmall => 6015,
        }
    }
}

} // verus!
