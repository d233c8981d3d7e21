use vstd::prelude::*;

verus! {

/// Identifier of an account, a mint or an oracle: 32 opaque bytes.
#[derive(Clone, Copy, Debug)]
pub struct AccountKey {
    pub bytes: [u8; 32],
}

impl View for AccountKey {
    type V = Seq<u8>;

    open spec fn view(&self) -> Seq<u8> {
        self.bytes@
    }
}

impl AccountKey {
    pub fn new(bytes: [u8; 32]) -> (r: AccountKey)
        ensures
            r@ == bytes@,
    {
        AccountKey { bytes }
    }

    /// The key made of 32 zero bytes, used for slots that hold no account.
    pub fn zero() -> (r: AccountKey)
        ensures
            r@ == Seq::new(32, |i: int| 0u8),
    {
        let r = AccountKey { bytes: [0u8; 32] };
        assert(r@ =~= Seq::new(32, |i: int| 0u8));
        r
    }

    pub fn same_as(&self, other: &AccountKey) -> (r: bool)
        ensures
            r == (self@ == other@),
    {
        let mut i: usize = 0;
        while i < 32
            invariant
                0 <= i <= 32,
                self@.len() == 32,
                other@.len() == 32,
                forall|j: int| 0 <= j < i ==> self@[j] == other@[j],
            decreases 32 - i,
        {
            if self.bytes[i] != other.bytes[i] {
                return false;
            }
            i = i + 1;
        }
        assert(self@ =~= other@);
        true
    }
}

} // verus!
