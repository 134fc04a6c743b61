use vstd::prelude::*;
use solana_program::pubkey::Pubkey;
use std::str::FromStr;

verus! {

/// What the canonical base-58 text of an account address decodes to, if it decodes.
pub uninterp spec fn base58_address(s: Seq<char>) -> Option<Seq<u8>>;

/// The canonical base-58 text of a 32-byte account address.
pub uninterp spec fn base58_text(b: Seq<u8>) -> Seq<char>;

/// Relies on `Pubkey::from_str` (solana-address `Address::from_str`): decodes the
/// base-58 text into the 32 address bytes, or fails.
#[verifier::external_body]
fn decode_base58(s: &str) -> (r: Option<[u8; 32]>)
    ensures
        match r {
            Some(b) => base58_address(s@) == Some(b@),
            None => base58_address(s@) is None,
        },
{
    Pubkey::from_str(s).ok().map(|p| p.to_bytes())
}

/// Relies on `Pubkey`'s `Display` (solana-address `write_as_base58`): the base-58 text
/// of the 32 address bytes.
#[verifier::external_body]
fn encode_base58(b: &[u8; 32]) -> (r: String)
    ensures
        r@ == base58_text(b@),
{
    Pubkey::new_from_array(*b).to_string()
}

/// An account address: 32 bytes, compared byte for byte.
#[derive(Copy, Clone, Debug, PartialEq, Eq, Hash)]
pub struct DeserializablePubkey(pub [u8; 32]);

impl View for DeserializablePubkey {
    type V = Seq<u8>;

    open spec fn view(&self) -> Seq<u8> {
        self.0@
    }
}

/// Whether `mints` holds an address equal to `id`.
pub open spec fn has_mint(mints: Seq<DeserializablePubkey>, id: Seq<u8>) -> bool {
    exists|k: int| 0 <= k < mints.len() && (#[trigger] mints[k])@ == id
}

/// Whether some address is held by both `a` and `b`.
pub open spec fn share_mint(a: Seq<DeserializablePubkey>, b: Seq<DeserializablePubkey>) -> bool {
    exists|k: int| 0 <= k < a.len() && has_mint(b, (#[trigger] a[k])@)
}

impl DeserializablePubkey {
    /// Decodes an address from its canonical text.
    pub fn parse(s: &str) -> (r: Option<DeserializablePubkey>)
        ensures
            match r {
                Some(id) => base58_address(s@) == Some(id@),
                None => base58_address(s@) is None,
            },
    {
        match decode_base58(s) {
            Some(b) => Some(DeserializablePubkey(b)),
            None => None,
        }
    }

    /// The canonical text of this address.
    pub fn to_base58(&self) -> (r: String)
        ensures
            r@ == base58_text(self@),
    {
        encode_base58(&self.0)
    }

    /// Byte-for-byte equality of two addresses.
    pub fn same(&self, other: &DeserializablePubkey) -> (r: bool)
        ensures
            r == (self@ == other@),
    {
        let mut i: usize = 0;
        while i < 32
            invariant
                i <= 32,
                self@.len() == 32,
                other@.len() == 32,
                forall|j: int| 0 <= j < i ==> self@[j] == other@[j],
            decreases 32 - i,
        {
            if self.0[i] != other.0[i] {
                return false;
            }
            i = i + 1;
        }
        assert(self@ =~= other@);
        true
    }
}

/// Whether the list `mints` holds the address `id`.
pub fn contains_mint(mints: &Vec<DeserializablePubkey>, id: &DeserializablePubkey) -> (r: bool)
    ensures
        r == has_mint(mints@, id@),
{
    let mut k: usize = 0;
    while k < mints.len()
        invariant
            k <= mints.len(),
            forall|j: int| 0 <= j < k ==> (#[trigger] mints@[j])@ != id@,
        decreases mints.len() - k,
    {
        if mints[k].same(id) {
            return true;
        }
        k = k + 1;
    }
    false
}

/// Whether the two lists have an address in common.
pub fn shares_mint(a: &Vec<DeserializablePubkey>, b: &Vec<DeserializablePubkey>) -> (r: bool)
    ensures
        r == share_mint(a@, b@),
{
    let mut k: usize = 0;
    while k < a.len()
        invariant
            k <= a.len(),
            forall|j: int| 0 <= j < k ==> !has_mint(b@, (#[trigger] a@[j])@),
        decreases a.len() - k,
    {
        if contains_mint(b, &a[k]) {
            return true;
        }
        k = k + 1;
    }
    false
}

} // verus!
