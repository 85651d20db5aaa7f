//! Signatures of Soroban authorization entries: who signed (an Ed25519
//! account or a smart-wallet contract) and the signature bytes, as hex.

use vstd::prelude::*;
use crate::events::{lemma_views, views};
use crate::scval::{ScAddressValue, ScMapEntry, ScValue};
use crate::strkey::{address_text, address_to_string};
use crate::text::{append, dec_nat, hex_of, hex_seq, push_dec, str_eq};
use crate::sandbox::{base64_decoded, decode_base64};
use crate::xdr_decode::{auth_entry_outcome_of, decode_auth_entry_xdr};

verus! {

/// The kind of signer of an authorization credential.
#[derive(Debug, Clone, Copy, PartialEq, Eq, Structural)]
pub enum SignatureKind {
    /// A classic Ed25519 account (`G...`).
    Ed25519,
    /// A smart-wallet contract (`C...`).
    SmartWallet,
    /// Any other address text.
    Unknown,
}

/// The kind of signer an address text names, by its first character.
pub open spec fn kind_of(address: Seq<char>) -> SignatureKind {
    if address.len() > 0 && address[0] == 'G' {
        SignatureKind::Ed25519
    } else if address.len() > 0 && address[0] == 'C' {
        SignatureKind::SmartWallet
    } else {
        SignatureKind::Unknown
    }
}

/// Display label of a signer kind.
pub open spec fn kind_label(k: SignatureKind) -> Seq<char> {
    match k {
        SignatureKind::Ed25519 => "Ed25519"@,
        SignatureKind::SmartWallet => "Smart Wallet"@,
        SignatureKind::Unknown => "Unknown"@,
    }
}

impl SignatureKind {
    /// The kind of signer a strkey names: `G...` Ed25519, `C...` smart
    /// wallet, anything else unknown.
    pub fn from_address(address: &str) -> (r: Self)
        ensures
            r == kind_of(address@),
    {
        let chars = crate::text::chars_of(address);
        if chars.len() > 0 && chars[0] == 'G' {
            SignatureKind::Ed25519
        } else if chars.len() > 0 && chars[0] == 'C' {
            SignatureKind::SmartWallet
        } else {
            SignatureKind::Unknown
        }
    }

    /// Display label: `Ed25519`, `Smart Wallet` or `Unknown`.
    pub fn label(self) -> (r: &'static str)
        ensures
            r@ == kind_label(self),
    {
        match self {
            SignatureKind::Ed25519 => "Ed25519",
            SignatureKind::SmartWallet => "Smart Wallet",
            SignatureKind::Unknown => "Unknown",
        }
    }
}

/// The text of a raw signature: its lower-case hex when it has 64 bytes,
/// else a label saying what is wrong with it.
pub open spec fn sig_text(b: Seq<u8>) -> Seq<char> {
    if b.len() == 0 {
        "<invalid: empty signature>"@
    } else if b.len() != 64 {
        "<invalid: expected 64 bytes, got "@ + dec_nat(b.len()) + ">"@
    } else {
        hex_seq(b)
    }
}

/// The text of a raw signature.
pub fn decode_signature_bytes(bytes: &[u8]) -> (r: String)
    ensures
        r@ == sig_text(bytes@),
{
    if bytes.len() == 0 {
        return String::from_str("<invalid: empty signature>");
    }
    if bytes.len() != 64 {
        let mut s = String::from_str("<invalid: expected 64 bytes, got ");
        push_dec(&mut s, bytes.len() as u128);
        append(&mut s, ">");
        return s;
    }
    hex_of(bytes)
}

/// The signatures a credential value carries: bytes are one signature; a
/// map contributes those under its `signature` keys; a vector those of its
/// elements; anything else none.
pub open spec fn sig_texts(v: ScValue) -> Seq<Seq<char>>
    decreases v, 1nat,
{
    match v {
        ScValue::Bytes(b) => seq![sig_text(b@)],
        ScValue::MapEntries(Some(entries)) => map_sigs(entries@),
        ScValue::Vec(Some(items)) => vec_sigs(items@),
        _ => Seq::empty(),
    }
}

/// A map key naming the signature.
pub open spec fn is_signature_key(k: ScValue) -> bool {
    match k {
        ScValue::Symbol(s) => s@ == "signature"@,
        ScValue::String(s) => s@ == "signature"@,
        _ => false,
    }
}

/// The signatures under the `signature` keys of map entries, in order.
pub open spec fn map_sigs(es: Seq<ScMapEntry>) -> Seq<Seq<char>>
    decreases es, 0nat,
{
    if es.len() == 0 {
        Seq::empty()
    } else if is_signature_key(es.last().key) {
        map_sigs(es.drop_last()) + sig_texts(es.last().val)
    } else {
        map_sigs(es.drop_last())
    }
}

/// The signatures of the elements of a vector, in order.
pub open spec fn vec_sigs(items: Seq<ScValue>) -> Seq<Seq<char>>
    decreases items, 0nat,
{
    if items.len() == 0 {
        Seq::empty()
    } else {
        vec_sigs(items.drop_last()) + sig_texts(items.last())
    }
}

fn is_signature_key_exec(k: &ScValue) -> (r: bool)
    ensures
        r == is_signature_key(*k),
{
    match k {
        ScValue::Symbol(s) => str_eq(s.as_str(), "signature"),
        ScValue::String(s) => str_eq(s.as_str(), "signature"),
        _ => false,
    }
}

fn append_strings(out: &mut Vec<String>, more: Vec<String>)
    ensures
        views(final(out)@) == views(old(out)@) + views(more@),
{
    let ghost o = out@;
    let ghost m = more@;
    proof {
        lemma_views(o);
        lemma_views(m);
    }
    let mut more = more;
    out.append(&mut more);
    proof {
        lemma_views(out@);
        assert(out@ =~= o + m);
        assert(views(out@) =~= views(o) + views(m));
    }
}

/// The signatures carried by a credential value.
pub fn extract_signatures_from_scval(val: &ScValue) -> (r: Vec<String>)
    ensures
        views(r@) == sig_texts(*val),
    decreases val, 1nat,
{
    match val {
        ScValue::Bytes(b) => {
            let mut out: Vec<String> = Vec::new();
            out.push(decode_signature_bytes(b.as_slice()));
            proof { lemma_views(out@); }
            assert(views(out@) =~= seq![sig_text(b@)]);
            out
        },
        ScValue::MapEntries(Some(entries)) => {
            let mut out: Vec<String> = Vec::new();
            let n = entries.len();
            for i in 0..n
                invariant
                    n == entries.len(),
                    *val == ScValue::MapEntries(Some(*entries)),
                    views(out@) == map_sigs(entries@.take(i as int)),
            {
                proof {
                    assert(decreases_to!(*val => val->MapEntries_0));
                    assert(decreases_to!(val->MapEntries_0 => val->MapEntries_0->Some_0));
                    assert(decreases_to!(*entries => entries[i as int]));
                    assert(decreases_to!(entries[i as int] => entries[i as int].val));
                }
                assert(entries@.take(i + 1).drop_last() =~= entries@.take(i as int));
                assert(entries@.take(i + 1).last() == entries@[i as int]);
                if is_signature_key_exec(&entries[i].key) {
                    let inner = extract_signatures_from_scval(&entries[i].val);
                    append_strings(&mut out, inner);
                }
            }
            assert(entries@.take(n as int) =~= entries@);
            out
        },
        ScValue::Vec(Some(items)) => {
            let mut out: Vec<String> = Vec::new();
            let n = items.len();
            for i in 0..n
                invariant
                    n == items.len(),
                    *val == ScValue::Vec(Some(*items)),
                    views(out@) == vec_sigs(items@.take(i as int)),
            {
                proof {
                    assert(decreases_to!(*val => val->Vec_0));
                    assert(decreases_to!(val->Vec_0 => val->Vec_0->Some_0));
                    assert(decreases_to!(*items => items[i as int]));
                }
                assert(items@.take(i + 1).drop_last() =~= items@.take(i as int));
                assert(items@.take(i + 1).last() == items@[i as int]);
                let inner = extract_signatures_from_scval(&items[i]);
                append_strings(&mut out, inner);
            }
            assert(items@.take(n as int) =~= items@);
            out
        },
        _ => Vec::new(),
    }
}

/// The address credentials of an authorization entry: who authorizes and
/// the signature value.
#[derive(Debug, PartialEq)]
pub struct AddressCredentials {
    pub address: ScAddressValue,
    pub signature: ScValue,
}

/// The signer of an authorization credential and its signatures.
#[derive(Debug, Clone, PartialEq, Eq)]
pub struct AuthSignatureInfo {
    pub kind: SignatureKind,
    /// The strkey of the signer: `G...` for an account, `C...` for a
    /// contract.
    pub address: String,
    /// The signatures, as hex (or labels for malformed ones).
    pub signatures: Vec<String>,
}

impl AuthSignatureInfo {
    /// The signer and signatures of address credentials: an account signs
    /// as Ed25519, a contract as a smart wallet.
    pub fn from_address_credentials(creds: &AddressCredentials) -> (r: Self)
        ensures
            r.address@ == address_text(creds.address),
            r.kind == kind_of(r.address@),
            r.kind == match creds.address {
                ScAddressValue::Account(_) => SignatureKind::Ed25519,
                ScAddressValue::Contract(_) => SignatureKind::SmartWallet,
            },
            views(r.signatures@) == sig_texts(creds.signature),
    {
        let address = address_to_string(&creds.address);
        let kind = SignatureKind::from_address(address.as_str());
        let signatures = extract_signatures_from_scval(&creds.signature);
        AuthSignatureInfo { kind, address, signatures }
    }
}

/// What decoding a base64 XDR authorization entry gave.
#[derive(Debug, PartialEq)]
pub enum AuthEntryOutcome {
    /// The text was not base64.
    Base64Failed,
    /// The bytes were not an XDR authorization entry.
    XdrFailed,
    /// The entry authorizes with the transaction's source account.
    SourceAccount,
    /// The entry authorizes with address credentials.
    Address(AddressCredentials),
}

/// The signatures of a decoded authorization entry: a label for an entry
/// that did not decode, none for source-account credentials.
pub open spec fn entry_sigs(o: AuthEntryOutcome) -> Seq<Seq<char>> {
    match o {
        AuthEntryOutcome::Base64Failed => seq!["<invalid: base64 decode failed>"@],
        AuthEntryOutcome::XdrFailed => seq!["<invalid: xdr decode failed>"@],
        AuthEntryOutcome::SourceAccount => Seq::empty(),
        AuthEntryOutcome::Address(c) => sig_texts(c.signature),
    }
}

/// The signatures of a decoded authorization entry.
pub fn outcome_signatures(entry: &AuthEntryOutcome) -> (r: Vec<String>)
    ensures
        views(r@) == entry_sigs(*entry),
{
    let mut out: Vec<String> = Vec::new();
    match entry {
        AuthEntryOutcome::Base64Failed => {
            out.push(String::from_str("<invalid: base64 decode failed>"));
        },
        AuthEntryOutcome::XdrFailed => {
            out.push(String::from_str("<invalid: xdr decode failed>"));
        },
        AuthEntryOutcome::SourceAccount => {},
        AuthEntryOutcome::Address(c) => {
            return extract_signatures_from_scval(&c.signature);
        },
    }
    proof { lemma_views(out@); }
    assert(views(out@) =~= entry_sigs(*entry));
    out
}

/// The signer and signatures of a decoded authorization entry: `Err` with
/// a label for an entry that did not decode, `Ok(None)` for source-account
/// credentials.
pub fn outcome_signature_info(entry: &AuthEntryOutcome) -> (r: Result<Option<AuthSignatureInfo>, String>)
    ensures
        match *entry {
            AuthEntryOutcome::Base64Failed => r matches Err(e) && e@ == "<invalid: base64 decode failed>"@,
            AuthEntryOutcome::XdrFailed => r matches Err(e) && e@ == "<invalid: xdr decode failed>"@,
            AuthEntryOutcome::SourceAccount => r matches Ok(None),
            AuthEntryOutcome::Address(c) => r matches Ok(Some(info)) && info.address@ == address_text(c.address)
                && info.kind == kind_of(info.address@) && views(info.signatures@) == sig_texts(c.signature),
        },
{
    match entry {
        AuthEntryOutcome::Base64Failed => Err(String::from_str("<invalid: base64 decode failed>")),
        AuthEntryOutcome::XdrFailed => Err(String::from_str("<invalid: xdr decode failed>")),
        AuthEntryOutcome::SourceAccount => Ok(None),
        AuthEntryOutcome::Address(c) => Ok(Some(AuthSignatureInfo::from_address_credentials(c))),
    }
}

/// What decoding a base64 XDR authorization entry gives: a label when the
/// text is not base64, else the entry's credentials.
pub open spec fn entry_outcome_of(b64: Seq<char>) -> AuthEntryOutcome {
    match base64_decoded(b64) {
        Err(_) => AuthEntryOutcome::Base64Failed,
        Ok(bytes) => auth_entry_outcome_of(bytes),
    }
}

fn decode_entry(auth_entry_b64: &str) -> (r: AuthEntryOutcome)
    ensures
        r == entry_outcome_of(auth_entry_b64@),
{
    match decode_base64(auth_entry_b64) {
        Ok(bytes) => decode_auth_entry_xdr(bytes.as_slice()),
        Err(_) => AuthEntryOutcome::Base64Failed,
    }
}

/// The signatures of a base64 XDR authorization entry, each as hex (or a
/// label for a malformed one): a label when the text is not base64 or not
/// an entry, none for source-account credentials.
pub fn decode_auth_entry_signatures(auth_entry_b64: &str) -> (r: Vec<String>)
    ensures
        views(r@) == entry_sigs(entry_outcome_of(auth_entry_b64@)),
{
    let entry = decode_entry(auth_entry_b64);
    outcome_signatures(&entry)
}

/// The signer and signatures of a base64 XDR authorization entry: `Err`
/// with a label when the text is not base64 or not an entry, `Ok(None)` for
/// source-account credentials.
pub fn decode_auth_entry_signature_info(auth_entry_b64: &str) -> (r: Result<Option<AuthSignatureInfo>, String>)
    ensures
        match entry_outcome_of(auth_entry_b64@) {
            AuthEntryOutcome::Base64Failed => r matches Err(e) && e@ == "<invalid: base64 decode failed>"@,
            AuthEntryOutcome::XdrFailed => r matches Err(e) && e@ == "<invalid: xdr decode failed>"@,
            AuthEntryOutcome::SourceAccount => r matches Ok(None),
            AuthEntryOutcome::Address(c) => r matches Ok(Some(info)) && info.address@ == address_text(c.address)
                && info.kind == kind_of(info.address@) && views(info.signatures@) == sig_texts(c.signature),
        },
{
    let entry = decode_entry(auth_entry_b64);
    outcome_signature_info(&entry)
}

} // verus!
