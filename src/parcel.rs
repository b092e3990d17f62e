//! Relayed header parcels and account identities, with byte-exact comparison.
use vstd::prelude::*;

verus! {

/// Compares two byte strings, every position significant.
pub fn bytes_equal(a: &Vec<u8>, b: &Vec<u8>) -> (r: bool)
    ensures
        r == (a@ == b@),
{
    if a.len() != b.len() {
        return false;
    }
    let mut i: usize = 0;
    while i < a.len()
        invariant
            i <= a.len(),
            a.len() == b.len(),
            forall|k: int| 0 <= k < i ==> a@[k] == b@[k],
        decreases a.len() - i,
    {
        if a[i] != b[i] {
            assert(a@[i as int] != b@[i as int]);
            return false;
        }
        i = i + 1;
    }
    assert(a@ =~= b@);
    true
}

/// The identity an account votes under on the destination chain.
#[derive(Clone, Debug)]
pub struct AccountId {
    pub bytes: Vec<u8>,
}

impl View for AccountId {
    type V = Seq<u8>;

    open spec fn view(&self) -> Seq<u8> {
        self.bytes@
    }
}

impl AccountId {
    pub fn new(bytes: Vec<u8>) -> (r: AccountId)
        ensures
            r@ == bytes@,
    {
        AccountId { bytes }
    }

    /// Whether both values name the same account.
    pub fn same_account(&self, other: &AccountId) -> (r: bool)
        ensures
            r == (self@ == other@),
    {
        bytes_equal(&self.bytes, &other.bytes)
    }
}

/// The mathematical content of a parcel: the block number it claims, the
/// encoded header and the MMR root that accompanies it.
pub struct ParcelView {
    pub number: u64,
    pub header: Seq<u8>,
    pub mmr_root: Seq<u8>,
}

/// A header together with its proof data, either as relayed to the destination
/// chain or as rebuilt independently from the source chain.
#[derive(Clone, Debug)]
pub struct Parcel {
    pub number: u64,
    pub header: Vec<u8>,
    pub mmr_root: Vec<u8>,
}

impl View for Parcel {
    type V = ParcelView;

    open spec fn view(&self) -> ParcelView {
        ParcelView { number: self.number, header: self.header@, mmr_root: self.mmr_root@ }
    }
}

impl Parcel {
    pub fn new(number: u64, header: Vec<u8>, mmr_root: Vec<u8>) -> (r: Parcel)
        ensures
            r.number == number,
            r.header@ == header@,
            r.mmr_root@ == mmr_root@,
    {
        Parcel { number, header, mmr_root }
    }

    /// Strict structural equality: every field must match exactly.
    pub fn is_same_as(&self, other: &Parcel) -> (r: bool)
        ensures
            r == (self@ == other@),
    {
        if self.number != other.number {
            return false;
        }
        let same_header = bytes_equal(&self.header, &other.header);
        let same_root = bytes_equal(&self.mmr_root, &other.mmr_root);
        same_header && same_root
    }
}

} // verus!
