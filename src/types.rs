use vstd::prelude::*;

verus! {

/// Identifier of a raffle; the first raffle has id 1.
pub type RaffleId = u32;

/// A number that a participant picks or that a draw returns.
pub type Number = u16;

/// An amount of the chain's native token.
pub type Balance = u128;

/// A 32-byte account address.
pub type AccountId = [u8; 32];

/// Byte-wise comparison of two account addresses.
pub fn account_eq(a: &AccountId, b: &AccountId) -> (r: bool)
    ensures
        r == (*a == *b),
{
    let mut i: usize = 0;
    while i < 32
        invariant
            0 <= i <= 32,
            forall|j: int| 0 <= j < i ==> a[j] == b[j],
        decreases 32 - i,
    {
        if a[i] != b[i] {
            return false;
        }
        i = i + 1;
    }
    proof {
        assert(*a =~= *b);
    }
    true
}

} // verus!
