//! The instruction formats: an eight-byte tag naming the operation, then the
//! operation's arguments, little-endian and length-prefixed, with nothing
//! after them.

use crate::codec::{
    bool_at, bytes_at, key_at, read_bool, read_bytes, read_key, read_u32, read_u8,
    u32_at, u8_at,
};
use crate::cut::{AddModuleData, AddModuleDataView};
use crate::error::DiamondError;
use crate::pubkey::Pubkey;
use crate::state::Selector;
use vstd::prelude::*;
use vstd::slice::{slice_subrange, slice_to_vec};
use vstd::utf8::valid_utf8;
use vstd::string::StringSliceAdditionalSpecFns;

verus! {

pub const INITIALIZE_DISCRIMINATOR: [u8; 8] = [1, 0, 0, 0, 0, 0, 0, 0];

pub const DISPATCH_DISCRIMINATOR: [u8; 8] = [2, 0, 0, 0, 0, 0, 0, 0];

pub const ADD_MODULE_DISCRIMINATOR: [u8; 8] = [3, 0, 0, 0, 0, 0, 0, 0];

pub const REMOVE_MODULE_DISCRIMINATOR: [u8; 8] = [4, 0, 0, 0, 0, 0, 0, 0];

pub const ADD_ADMIN_DISCRIMINATOR: [u8; 8] = [5, 0, 0, 0, 0, 0, 0, 0];

pub const PAUSE_DISCRIMINATOR: [u8; 8] = [6, 0, 0, 0, 0, 0, 0, 0];

/// Relies on `std::str::from_utf8`: it accepts exactly the byte strings that
/// are valid UTF-8, and the text it returns consists of those bytes.
#[verifier::external_body]
pub(crate) fn utf8_text(b: &[u8]) -> (r: Option<&str>)
    ensures
        r is Some <==> valid_utf8(b@),
        r matches Some(s) ==> s.spec_bytes() == b@,
{
    std::str::from_utf8(b).ok()
}

} // verus!

verus! {

/// The operation an instruction names.
#[derive(Clone, Copy, Debug, PartialEq, Eq, Structural)]
pub enum DiamondInstruction {
    Initialize,
    Dispatch,
    AddModule,
    RemoveModule,
    AddAdmin,
    Pause,
}

/// The operation that an eight-byte tag names.
pub open spec fn instruction_of(tag: Seq<u8>) -> Option<DiamondInstruction> {
    if tag == INITIALIZE_DISCRIMINATOR@ {
        Some(DiamondInstruction::Initialize)
    } else if tag == DISPATCH_DISCRIMINATOR@ {
        Some(DiamondInstruction::Dispatch)
    } else if tag == ADD_MODULE_DISCRIMINATOR@ {
        Some(DiamondInstruction::AddModule)
    } else if tag == REMOVE_MODULE_DISCRIMINATOR@ {
        Some(DiamondInstruction::RemoveModule)
    } else if tag == ADD_ADMIN_DISCRIMINATOR@ {
        Some(DiamondInstruction::AddAdmin)
    } else if tag == PAUSE_DISCRIMINATOR@ {
        Some(DiamondInstruction::Pause)
    } else {
        None
    }
}

/// A four-byte length, then that many bytes.
pub open spec fn blob_at(b: Seq<u8>, p: int) -> Option<(Seq<u8>, int)> {
    match u32_at(b, p) {
        Some((n, q)) => if q + n <= b.len() {
            Some((b.subrange(q, q + n), q + n))
        } else {
            None
        },
        None => None,
    }
}

/// A four-byte length, then that many bytes of UTF-8 text.
pub open spec fn text_at(b: Seq<u8>, p: int) -> Option<(Seq<u8>, int)> {
    match blob_at(b, p) {
        Some((t, q)) => if valid_utf8(t) {
            Some((t, q))
        } else {
            None
        },
        None => None,
    }
}

/// The arguments of an add-module instruction: module name, module address,
/// selector, function name and immutability flag, filling `b` exactly.
pub open spec fn parse_add_module(b: Seq<u8>) -> Option<AddModuleDataView> {
    match text_at(b, 0) {
        Some((module_name, q1)) => match key_at(b, q1) {
            Some((module_address, q2)) => match bytes_at::<4>(b, q2) {
                Some((selector, q3)) => match text_at(b, q3) {
                    Some((function_name, q4)) => match bool_at(b, q4) {
                        Some((is_immutable, q5)) => if q5 == b.len() {
                            Some(
                                AddModuleDataView {
                                    module_name,
                                    module_address,
                                    selector,
                                    function_name,
                                    is_immutable,
                                },
                            )
                        } else {
                            None
                        },
                        None => None,
                    },
                    None => None,
                },
                None => None,
            },
            None => None,
        },
        None => None,
    }
}

/// A selector filling `b` exactly.
pub open spec fn parse_selector(b: Seq<u8>) -> Option<Selector> {
    match bytes_at::<4>(b, 0) {
        Some((s, q)) => if q == b.len() {
            Some(s)
        } else {
            None
        },
        None => None,
    }
}

/// A key filling `b` exactly.
pub open spec fn parse_key(b: Seq<u8>) -> Option<Pubkey> {
    match key_at(b, 0) {
        Some((k, q)) => if q == b.len() {
            Some(k)
        } else {
            None
        },
        None => None,
    }
}

/// A flag filling `b` exactly.
pub open spec fn parse_flag(b: Seq<u8>) -> Option<bool> {
    match bool_at(b, 0) {
        Some((x, q)) => if q == b.len() {
            Some(x)
        } else {
            None
        },
        None => None,
    }
}

/// An owner key and a bump, filling `b` exactly.
pub open spec fn parse_init(b: Seq<u8>) -> Option<(Pubkey, u8)> {
    match key_at(b, 0) {
        Some((k, q1)) => match u8_at(b, q1) {
            Some((bump, q2)) => if q2 == b.len() {
                Some((k, bump))
            } else {
                None
            },
            None => None,
        },
        None => None,
    }
}

/// A length-prefixed payload filling `b` exactly.
pub open spec fn parse_payload(b: Seq<u8>) -> Option<Seq<u8>> {
    match blob_at(b, 0) {
        Some((t, q)) => if q == b.len() {
            Some(t)
        } else {
            None
        },
        None => None,
    }
}

/// Whether two byte strings are equal.
pub fn bytes_eq(a: &[u8], b: &[u8]) -> (r: bool)
    ensures
        r == (a@ == b@),
{
    if a.len() != b.len() {
        return false;
    }
    let mut i: usize = 0;
    while i < a.len()
        invariant
            a@.len() == b@.len(),
            0 <= i <= a@.len(),
            forall|j: int| 0 <= j < i ==> a@[j] == b@[j],
        decreases a@.len() - i,
    {
        if a[i] != b[i] {
            return false;
        }
        i = i + 1;
    }
    assert(a@ =~= b@);
    true
}

/// Splits an instruction into the operation its tag names and the rest.
pub fn decode_instruction(data: &[u8]) -> (r: Result<(DiamondInstruction, &[u8]), DiamondError>)
    ensures
        data@.len() < 8 ==> r == Err::<(DiamondInstruction, &[u8]), DiamondError>(
            DiamondError::InvalidInstructionData,
        ),
        data@.len() >= 8 ==> match instruction_of(data@.take(8)) {
            None => r == Err::<(DiamondInstruction, &[u8]), DiamondError>(
                DiamondError::InvalidInstructionData,
            ),
            Some(op) => r matches Ok((op2, rest)) && op2 == op && rest@ == data@.skip(8),
        },
{
    if data.len() < 8 {
        return Err(DiamondError::InvalidInstructionData);
    }
    let tag = slice_subrange(data, 0, 8);
    let rest = slice_subrange(data, 8, data.len());
    assert(rest@ =~= data@.skip(8));
    let op = if bytes_eq(tag, INITIALIZE_DISCRIMINATOR.as_slice()) {
        DiamondInstruction::Initialize
    } else if bytes_eq(tag, DISPATCH_DISCRIMINATOR.as_slice()) {
        DiamondInstruction::Dispatch
    } else if bytes_eq(tag, ADD_MODULE_DISCRIMINATOR.as_slice()) {
        DiamondInstruction::AddModule
    } else if bytes_eq(tag, REMOVE_MODULE_DISCRIMINATOR.as_slice()) {
        DiamondInstruction::RemoveModule
    } else if bytes_eq(tag, ADD_ADMIN_DISCRIMINATOR.as_slice()) {
        DiamondInstruction::AddAdmin
    } else if bytes_eq(tag, PAUSE_DISCRIMINATOR.as_slice()) {
        DiamondInstruction::Pause
    } else {
        return Err(DiamondError::InvalidInstructionData);
    };
    Ok((op, rest))
}

/// Reads a four-byte length, then that many bytes.
pub fn read_blob(b: &[u8], pos: usize) -> (r: Option<(Vec<u8>, usize)>)
    ensures
        match blob_at(b@, pos as int) {
            None => r is None,
            Some((t, q)) => r matches Some((v, q2)) && v@ == t && q2 == q,
        },
{
    let (n, q) = match read_u32(b, pos) {
        Some(x) => x,
        None => return None,
    };
    if n as usize > b.len() - q {
        return None;
    }
    let t = slice_subrange(b, q, q + n as usize);
    Some((slice_to_vec(t), q + n as usize))
}

/// Reads a four-byte length, then that many bytes of UTF-8 text.
pub fn read_text(b: &[u8], pos: usize) -> (r: Option<(Vec<u8>, usize)>)
    ensures
        match text_at(b@, pos as int) {
            None => r is None,
            Some((t, q)) => r matches Some((v, q2)) && v@ == t && q2 == q,
        },
{
    let (t, q) = match read_blob(b, pos) {
        Some(x) => x,
        None => return None,
    };
    match utf8_text(t.as_slice()) {
        Some(_) => Some((t, q)),
        None => None,
    }
}

pub fn parse_add_module_data(b: &[u8]) -> (r: Result<AddModuleData, DiamondError>)
    ensures
        match parse_add_module(b@) {
            None => r == Err::<AddModuleData, DiamondError>(DiamondError::InvalidInstructionData),
            Some(a) => r matches Ok(d) && d@ == a,
        },
{
    let (module_name, q1) = match read_text(b, 0) {
        Some(x) => x,
        None => return Err(DiamondError::InvalidInstructionData),
    };
    let (module_address, q2) = match read_key(b, q1) {
        Some(x) => x,
        None => return Err(DiamondError::InvalidInstructionData),
    };
    let (selector, q3) = match read_bytes::<4>(b, q2) {
        Some(x) => x,
        None => return Err(DiamondError::InvalidInstructionData),
    };
    let (function_name, q4) = match read_text(b, q3) {
        Some(x) => x,
        None => return Err(DiamondError::InvalidInstructionData),
    };
    let (is_immutable, q5) = match read_bool(b, q4) {
        Some(x) => x,
        None => return Err(DiamondError::InvalidInstructionData),
    };
    if q5 != b.len() {
        return Err(DiamondError::InvalidInstructionData);
    }
    Ok(AddModuleData { module_name, module_address, selector, function_name, is_immutable })
}

pub fn parse_selector_data(b: &[u8]) -> (r: Result<Selector, DiamondError>)
    ensures
        match parse_selector(b@) {
            None => r == Err::<Selector, DiamondError>(DiamondError::InvalidInstructionData),
            Some(s) => r == Ok::<Selector, DiamondError>(s),
        },
{
    match read_bytes::<4>(b, 0) {
        Some((s, q)) => if q == b.len() {
            Ok(s)
        } else {
            Err(DiamondError::InvalidInstructionData)
        },
        None => Err(DiamondError::InvalidInstructionData),
    }
}

pub fn parse_key_data(b: &[u8]) -> (r: Result<Pubkey, DiamondError>)
    ensures
        match parse_key(b@) {
            None => r == Err::<Pubkey, DiamondError>(DiamondError::InvalidInstructionData),
            Some(k) => r == Ok::<Pubkey, DiamondError>(k),
        },
{
    match read_key(b, 0) {
        Some((k, q)) => if q == b.len() {
            Ok(k)
        } else {
            Err(DiamondError::InvalidInstructionData)
        },
        None => Err(DiamondError::InvalidInstructionData),
    }
}

pub fn parse_flag_data(b: &[u8]) -> (r: Result<bool, DiamondError>)
    ensures
        match parse_flag(b@) {
            None => r == Err::<bool, DiamondError>(DiamondError::InvalidInstructionData),
            Some(x) => r == Ok::<bool, DiamondError>(x),
        },
{
    match read_bool(b, 0) {
        Some((x, q)) => if q == b.len() {
            Ok(x)
        } else {
            Err(DiamondError::InvalidInstructionData)
        },
        None => Err(DiamondError::InvalidInstructionData),
    }
}

pub fn parse_init_data(b: &[u8]) -> (r: Result<(Pubkey, u8), DiamondError>)
    ensures
        match parse_init(b@) {
            None => r == Err::<(Pubkey, u8), DiamondError>(DiamondError::InvalidInstructionData),
            Some(x) => r == Ok::<(Pubkey, u8), DiamondError>(x),
        },
{
    let (k, q1) = match read_key(b, 0) {
        Some(x) => x,
        None => return Err(DiamondError::InvalidInstructionData),
    };
    match read_u8(b, q1) {
        Some((bump, q2)) => if q2 == b.len() {
            Ok((k, bump))
        } else {
            Err(DiamondError::InvalidInstructionData)
        },
        None => Err(DiamondError::InvalidInstructionData),
    }
}

pub fn parse_payload_data(b: &[u8]) -> (r: Result<Vec<u8>, DiamondError>)
    ensures
        match parse_payload(b@) {
            None => r == Err::<Vec<u8>, DiamondError>(DiamondError::InvalidInstructionData),
            Some(t) => r matches Ok(v) && v@ == t,
        },
{
    match read_blob(b, 0) {
        Some((t, q)) => if q == b.len() {
            Ok(t)
        } else {
            Err(DiamondError::InvalidInstructionData)
        },
        None => Err(DiamondError::InvalidInstructionData),
    }
}

} // verus!
