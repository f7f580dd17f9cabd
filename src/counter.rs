//! An example handler module: a counter that the registry can route calls
//! to. The first four bytes of a call select the operation; an optional
//! eight-byte little-endian amount follows.

use crate::account::AccountHandle;
use crate::codec::push_bytes;
use crate::pubkey::Pubkey;
use crate::state::{selector_eq, to_fixed_bytes};
use vstd::bytes::{spec_u64_from_le_bytes, spec_u64_to_le_bytes, u64_from_le_bytes, u64_to_le_bytes, lemma_auto_spec_u64_to_from_le_bytes};
use vstd::prelude::*;
use vstd::slice::slice_subrange;

verus! {

pub const INCREMENT_SELECTOR: [u8; 4] = [1, 2, 3, 4];

pub const DECREMENT_SELECTOR: [u8; 4] = [5, 6, 7, 8];

pub const GET_VALUE_SELECTOR: [u8; 4] = [9, 10, 11, 12];

pub const RESET_SELECTOR: [u8; 4] = [13, 14, 15, 16];

/// Bytes of a stored counter.
pub const COUNTER_LEN: usize = 41;

/// Every way a counter call can fail.
#[derive(Clone, Copy, Debug, PartialEq, Eq, Structural)]
pub enum CounterError {
    /// The call is shorter than a selector, or its selector is unknown.
    InvalidInstructionData,
    /// The authority did not sign.
    MissingRequiredSignature,
    /// The stored counter does not decode.
    InvalidAccountData,
    /// The signer is not the counter's authority.
    IllegalOwner,
    /// The new value would leave the range of `u64`.
    InvalidArgument,
}

/// A counter and the key allowed to change it.
#[derive(Clone, Copy, Debug)]
pub struct Counter {
    pub value: u64,
    pub authority: Pubkey,
    pub bump: u8,
}

/// The operations of the counter.
#[derive(Clone, Copy, Debug, PartialEq, Eq, Structural)]
pub enum CounterOp {
    Increment,
    Decrement,
    GetValue,
    Reset,
}

impl Counter {
    pub fn new(authority: Pubkey, bump: u8) -> (r: Counter)
        ensures
            r == (Counter { value: 0, authority, bump }),
    {
        Counter { value: 0, authority, bump }
    }
}

/// The operation that a selector names.
pub open spec fn counter_op_of(sel: [u8; 4]) -> Option<CounterOp> {
    if sel == INCREMENT_SELECTOR {
        Some(CounterOp::Increment)
    } else if sel == DECREMENT_SELECTOR {
        Some(CounterOp::Decrement)
    } else if sel == GET_VALUE_SELECTOR {
        Some(CounterOp::GetValue)
    } else if sel == RESET_SELECTOR {
        Some(CounterOp::Reset)
    } else {
        None
    }
}

/// The amount a call carries after its selector: one where there is none,
/// the little-endian value where it is exactly eight bytes, and one where it
/// is anything else.
pub open spec fn amount_of(body: Seq<u8>) -> u64 {
    if body.len() == 8 {
        spec_u64_from_le_bytes(body)
    } else {
        1
    }
}

/// What a call with `data`, made by `authority`, does to counter `c`.
pub open spec fn counter_outcome(c: Counter, authority: AccountHandle, data: Seq<u8>) -> Result<
    Counter,
    CounterError,
> {
    if data.len() < 4 {
        Err(CounterError::InvalidInstructionData)
    } else {
        match counter_op_of(crate::router::spec_selector_of(data)) {
            None => Err(CounterError::InvalidInstructionData),
            Some(CounterOp::GetValue) => Ok(c),
            Some(op) => if !authority.is_signer {
                Err(CounterError::MissingRequiredSignature)
            } else if c.authority != authority.key {
                Err(CounterError::IllegalOwner)
            } else {
                let amount = amount_of(data.skip(4));
                match op {
                    CounterOp::Increment => if c.value + amount > u64::MAX {
                        Err(CounterError::InvalidArgument)
                    } else {
                        Ok(Counter { value: (c.value + amount) as u64, ..c })
                    },
                    CounterOp::Decrement => if c.value < amount {
                        Err(CounterError::InvalidArgument)
                    } else {
                        Ok(Counter { value: (c.value - amount) as u64, ..c })
                    },
                    _ => Ok(Counter { value: 0, ..c }),
                }
            },
        }
    }
}

/// The operation that a selector names, if any.
pub fn counter_op(sel: &[u8; 4]) -> (r: Option<CounterOp>)
    ensures
        r == counter_op_of(*sel),
{
    if selector_eq(sel, &INCREMENT_SELECTOR) {
        Some(CounterOp::Increment)
    } else if selector_eq(sel, &DECREMENT_SELECTOR) {
        Some(CounterOp::Decrement)
    } else if selector_eq(sel, &GET_VALUE_SELECTOR) {
        Some(CounterOp::GetValue)
    } else if selector_eq(sel, &RESET_SELECTOR) {
        Some(CounterOp::Reset)
    } else {
        None
    }
}

/// The amount carried after a selector.
pub fn parse_amount(body: &[u8]) -> (r: u64)
    ensures
        r == amount_of(body@),
{
    if body.len() == 8 {
        u64_from_le_bytes(body)
    } else {
        1
    }
}

/// Applies a call to the counter. On any error the counter is unchanged.
pub fn execute(counter: &mut Counter, authority: &AccountHandle, data: &[u8]) -> (r: Result<
    (),
    CounterError,
>)
    ensures
        match counter_outcome(*old(counter), *authority, data@) {
            Ok(c) => r is Ok && *final(counter) == c,
            Err(e) => r == Err::<(), CounterError>(e) && *final(counter) == *old(counter),
        },
{
    let sel = match crate::router::selector_of(data) {
        Ok(s) => s,
        Err(_) => return Err(CounterError::InvalidInstructionData),
    };
    let op = match counter_op(&sel) {
        Some(op) => op,
        None => return Err(CounterError::InvalidInstructionData),
    };
    if op == CounterOp::GetValue {
        return Ok(());
    }
    if !authority.is_signer {
        return Err(CounterError::MissingRequiredSignature);
    }
    if counter.authority != authority.key {
        return Err(CounterError::IllegalOwner);
    }
    let body = slice_subrange(data, 4, data.len());
    assert(body@ =~= data@.skip(4));
    let amount = parse_amount(body);
    match op {
        CounterOp::Increment => {
            match counter.value.checked_add(amount) {
                Some(v) => counter.value = v,
                None => return Err(CounterError::InvalidArgument),
            }
        },
        CounterOp::Decrement => {
            match counter.value.checked_sub(amount) {
                Some(v) => counter.value = v,
                None => return Err(CounterError::InvalidArgument),
            }
        },
        _ => counter.value = 0,
    }
    Ok(())
}

/// The bytes of a stored counter: value, authority, bump.
pub open spec fn enc_counter(c: Counter) -> Seq<u8> {
    spec_u64_to_le_bytes(c.value) + c.authority.0@ + seq![c.bump]
}

pub fn encode_counter(c: &Counter) -> (r: Vec<u8>)
    ensures
        r@ == enc_counter(*c),
{
    let mut out = u64_to_le_bytes(c.value);
    push_bytes(&mut out, c.authority.0.as_slice());
    out.push(c.bump);
    assert(out@ =~= enc_counter(*c));
    out
}

/// The counter that `b` holds, where `b` is exactly a stored counter.
pub fn decode_counter(b: &[u8]) -> (r: Result<Counter, CounterError>)
    ensures
        b@.len() != COUNTER_LEN ==> r == Err::<Counter, CounterError>(CounterError::InvalidAccountData),
        b@.len() == COUNTER_LEN ==> (r matches Ok(c) && enc_counter(c) == b@),
{
    if b.len() != COUNTER_LEN {
        return Err(CounterError::InvalidAccountData);
    }
    let value = u64_from_le_bytes(slice_subrange(b, 0, 8));
    let authority = Pubkey(to_fixed_bytes::<32>(slice_subrange(b, 8, 40)));
    let bump = b[40];
    let c = Counter { value, authority, bump };
    proof {
        lemma_auto_spec_u64_to_from_le_bytes();
        assert(b@.subrange(0, 8) == spec_u64_to_le_bytes(value));
        assert(authority.0@ =~= b@.subrange(8, 40));
        assert(enc_counter(c) =~= b@);
    }
    Ok(c)
}

/// Distinct counters are stored as distinct bytes, so a stored counter
/// decodes to itself.
pub proof fn lemma_counter_round_trip(c: Counter, d: Counter)
    ensures
        enc_counter(c).len() == COUNTER_LEN,
        enc_counter(c) == enc_counter(d) ==> c == d,
{
    lemma_auto_spec_u64_to_from_le_bytes();
    if enc_counter(c) == enc_counter(d) {
        let e = enc_counter(c);
        assert(e.subrange(0, 8) =~= spec_u64_to_le_bytes(c.value));
        assert(enc_counter(d).subrange(0, 8) =~= spec_u64_to_le_bytes(d.value));
        assert(c.authority.0 =~= d.authority.0) by {
            assert forall|i: int| 0 <= i < 32 implies c.authority.0[i] == d.authority.0[i] by {
                assert(e[8 + i] == c.authority.0@[i]);
                assert(enc_counter(d)[8 + i] == d.authority.0@[i]);
            }
        }
        assert(e[40] == c.bump);
        assert(enc_counter(d)[40] == d.bump);
    }
}

} // verus!
