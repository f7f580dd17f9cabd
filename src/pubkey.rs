//! Account and program addresses.

use vstd::prelude::*;

verus! {

broadcast use vstd::array::group_array_axioms;

/// A 32-byte account or program address.
#[derive(Clone, Copy, Debug)]
pub struct Pubkey(pub [u8; 32]);

impl Pubkey {
    pub fn new_from_array(bytes: [u8; 32]) -> (r: Pubkey)
        ensures
            r.0 == bytes,
    {
        Pubkey(bytes)
    }

    pub fn to_bytes(&self) -> (r: [u8; 32])
        ensures
            r == self.0,
    {
        self.0
    }

    /// Whether every byte of the address is zero.
    pub open spec fn is_zero(self) -> bool {
        self.0@ == Seq::new(32, |i: int| 0u8)
    }

    pub fn zero() -> (r: Pubkey)
        ensures
            r.is_zero(),
    {
        let r = Pubkey([0u8; 32]);
        assert(r.0@ =~= Seq::new(32, |i: int| 0u8));
        r
    }
}

impl Default for Pubkey {
    fn default() -> (r: Pubkey)
        ensures
            r.is_zero(),
    {
        Pubkey::zero()
    }
}

/// Two keys are equal exactly when their bytes are.
pub proof fn lemma_key_eq(a: Pubkey, b: Pubkey)
    ensures
        (a == b) <==> (a.0@ == b.0@),
{
    if a.0@ == b.0@ {
        assert(a.0 =~= b.0) by {
            assert forall|i: int| 0 <= i < 32 implies a.0[i] == b.0[i] by {
                assert(a.0@[i] == b.0@[i]);
            }
        }
    }
}

impl PartialEq for Pubkey {
    fn eq(&self, other: &Pubkey) -> (r: bool)
        ensures
            r == (*self == *other),
    {
        let mut i: usize = 0;
        while i < 32
            invariant
                0 <= i <= 32,
                forall|j: int| 0 <= j < i ==> self.0[j] == other.0[j],
            decreases 32 - i,
        {
            if self.0[i] != other.0[i] {
                proof {
                    lemma_key_eq(*self, *other);
                }
                return false;
            }
            i = i + 1;
        }
        proof {
            assert(self.0 =~= other.0);
        }
        true
    }
}

impl Eq for Pubkey {}

impl vstd::std_specs::cmp::PartialEqSpecImpl for Pubkey {
    open spec fn obeys_eq_spec() -> bool {
        true
    }

    open spec fn eq_spec(&self, other: &Pubkey) -> bool {
        *self == *other
    }
}

} // verus!
