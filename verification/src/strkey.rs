//! Strkey text of addresses (`G...` accounts, `C...` contracts), computed by
//! the `stellar-strkey` crate.

use vstd::prelude::*;
use crate::scval::ScAddressValue;

verus! {

/// The strkey text of a contract hash, as `stellar_strkey::Contract` prints it.
pub uninterp spec fn contract_strkey(hash: Seq<u8>) -> Seq<char>;

/// The strkey text of an ed25519 account key, as
/// `stellar_strkey::ed25519::PublicKey` prints it.
pub uninterp spec fn account_strkey(key: Seq<u8>) -> Seq<char>;

/// Strkey of a contract hash (wraps `Display` of `stellar_strkey::Contract`).
///
/// Trusted: the text is a function of the hash; it is 56 characters long
/// and begins with `C` (the crate's `ENCODED_LEN` and contract version byte).
#[verifier::external_body]
pub(crate) fn encode_contract(hash: &[u8; 32]) -> (s: String)
    ensures
        s@ == contract_strkey(hash@),
        s@.len() == 56,
        s@[0] == 'C',
{
    format!("{}", stellar_strkey::Contract(*hash))
}

/// Strkey of an account key (wraps `Display` of
/// `stellar_strkey::ed25519::PublicKey`).
///
/// Trusted: the text is a function of the key; it is 56 characters long and
/// begins with `G` (the crate's `ENCODED_LEN` and public-key version byte).
#[verifier::external_body]
pub(crate) fn encode_account(key: &[u8; 32]) -> (s: String)
    ensures
        s@ == account_strkey(key@),
        s@.len() == 56,
        s@[0] == 'G',
{
    format!("{}", stellar_strkey::ed25519::PublicKey(*key))
}

/// The strkey text of an address.
pub open spec fn address_text(a: ScAddressValue) -> Seq<char> {
    match a {
        ScAddressValue::Account(k) => account_strkey(k@),
        ScAddressValue::Contract(h) => contract_strkey(h@),
    }
}

/// Strkey text of an address (`ScAddressValue::to_string`).
pub fn address_to_string(a: &ScAddressValue) -> (s: String)
    ensures
        s@ == address_text(*a),
        s@.len() == 56,
        s@[0] == (match *a {
            ScAddressValue::Account(_) => 'G',
            ScAddressValue::Contract(_) => 'C',
        }),
{
    match a {
        ScAddressValue::Account(k) => encode_account(k),
        ScAddressValue::Contract(h) => encode_contract(h),
    }
}

} // verus!
