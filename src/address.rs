//! Ledger addresses: 32 raw bytes, written as base-58 text at the boundary.

use solana_sdk::pubkey::Pubkey;
use std::str::FromStr;
use vstd::prelude::*;

verus! {

/// Longest text that can parse as an address.
pub const MAX_ADDRESS_TEXT_LEN: usize = 44;

/// What parsing the text `s` as a base-58 public key yields: `None` when it
/// is not valid base-58 or does not decode to exactly 32 bytes.
pub uninterp spec fn base58_pubkey(s: Seq<char>) -> Option<Seq<u8>>;

/// The canonical base-58 text of the 32 bytes `b`.
pub uninterp spec fn base58_text(b: Seq<u8>) -> Seq<char>;

/// Whether the 32 bytes `b` are the compressed form of a point on the curve
/// that the ledger's keys live on.
pub uninterp spec fn on_curve(b: Seq<u8>) -> bool;

/// A 32-byte public identifier. Two addresses are equal iff their bytes are.
#[derive(Clone, Copy, PartialEq, Eq, Debug)]
pub struct Address {
    pub bytes: [u8; 32],
}

impl View for Address {
    type V = Seq<u8>;

    open spec fn view(&self) -> Seq<u8> {
        self.bytes@
    }
}

/// Relies on `Pubkey::from_str`: texts longer than 44 bytes are refused, the
/// rest are base-58 decoded and accepted exactly when they give 32 bytes.
#[verifier::external_body]
fn pubkey_from_str(s: &str) -> (r: Option<Address>)
    ensures
        r is Some <==> base58_pubkey(s@) is Some,
        r matches Some(a) ==> base58_pubkey(s@) == Some(a@),
        s@.len() > MAX_ADDRESS_TEXT_LEN ==> r is None,
{
    Pubkey::from_str(s).ok().map(|p| Address { bytes: p.to_bytes() })
}

/// Relies on `Pubkey`'s `Display`: the base-58 text of the key's bytes.
#[verifier::external_body]
fn pubkey_to_string(a: &Address) -> (r: String)
    ensures
        r@ == base58_text(a@),
{
    Pubkey::new_from_array(a.bytes).to_string()
}

/// Relies on `Pubkey::is_on_curve`: whether the bytes decompress to a curve
/// point.
#[verifier::external_body]
fn pubkey_is_on_curve(a: &Address) -> (r: bool)
    ensures
        r == on_curve(a@),
{
    Pubkey::new_from_array(a.bytes).is_on_curve()
}

impl Address {
    /// Parses the base-58 text of an address; `None` for text that is not
    /// valid base-58 or does not encode exactly 32 bytes.
    pub fn parse(s: &str) -> (r: Option<Address>)
        ensures
            r is Some <==> base58_pubkey(s@) is Some,
            r matches Some(a) ==> base58_pubkey(s@) == Some(a@),
            s@.len() > MAX_ADDRESS_TEXT_LEN ==> r is None,
    {
        pubkey_from_str(s)
    }

    /// The canonical base-58 text of this address.
    pub fn to_text(&self) -> (r: String)
        ensures
            r@ == base58_text(self@),
    {
        pubkey_to_string(self)
    }

    /// Whether this address is a point of the key curve; derived program
    /// addresses never are.
    pub fn is_on_curve(&self) -> (r: bool)
        ensures
            r == on_curve(self@),
    {
        pubkey_is_on_curve(self)
    }
}

} // verus!
