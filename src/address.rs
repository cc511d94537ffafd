use vstd::prelude::*;

use crate::encoding::{be_digits, escrow_subaccount, hex_of, lemma_hex_len, to_hex};

verus! {

/// Fewest public-key bytes from which a deposit address can be formed.
pub const MIN_PUBLIC_KEY_LEN: usize = 10;

/// The deposit address shown for an escrow whose derived public key is `public_key`:
/// `ecdsa_` followed by the first twenty hex digits of the key.
pub open spec fn address_of(public_key: Seq<u8>) -> Seq<char> {
    "ecdsa_"@ + hex_of(public_key).take(20)
}

/// Forms the deposit address from the derived public key; `None` when the key is too short.
pub fn ecdsa_address(public_key: &Vec<u8>) -> (r: Option<String>)
    ensures
        public_key@.len() >= MIN_PUBLIC_KEY_LEN ==> r is Some && r->0@ == address_of(public_key@),
        public_key@.len() < MIN_PUBLIC_KEY_LEN ==> r is None,
{
    if public_key.len() < MIN_PUBLIC_KEY_LEN {
        return None;
    }
    let digits = to_hex(public_key.as_slice());
    proof {
        lemma_hex_len(public_key@);
    }
    let prefix = digits.as_str().substring_char(0, 20);
    let mut address = String::from_str("ecdsa_");
    address.append(prefix);
    Some(address)
}

/// The key-derivation path of an escrow's address: the service's own id bytes,
/// then the escrow id as eight big-endian bytes.
pub fn derivation_path(service_id: &Vec<u8>, escrow_id: u64) -> (r: Vec<Vec<u8>>)
    ensures
        r@.len() == 2,
        r@[0]@ == service_id@,
        r@[1]@ == be_digits(escrow_id as nat, 8),
{
    let mut path: Vec<Vec<u8>> = Vec::new();
    let first = service_id.clone();
    assert(first@ =~= service_id@);
    path.push(first);
    path.push(escrow_subaccount(escrow_id));
    path
}

} // verus!
