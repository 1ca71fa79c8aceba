//! Resolution of a mint's metadata: parse the mint, derive its metadata
//! account, and, once the account's bytes have been fetched, decode them into
//! a record whose strings are stripped of their NUL padding.
//!
//! The fetch itself is the caller's: `metadata_address` gives the account to
//! read, and `complete_resolution` takes what the read returned.

use crate::address::{base58_pubkey, base58_text, Address};
use crate::layout::{
    decode_record, encode_record, lemma_decode_encode, parse_record, record_storable, Creator,
    CreatorView, MetadataRecord, RecordView,
};
use crate::pda::{get_metadata_pda, metadata_pda};
use vstd::prelude::*;
use vstd::utf8::{decode_utf8, valid_utf8};

verus! {

/// Why a resolution failed.
#[derive(Clone, Debug, PartialEq, Eq)]
pub enum ResolutionError {
    /// The mint text is not the base-58 text of a 32-byte address.
    InvalidMint,
    /// No metadata account address could be derived for the mint.
    NoMetadataAccount,
    /// The remote read of the account failed; holds its cause.
    FetchFailed(String),
    /// The account's bytes do not hold a whole metadata record.
    DecodeFailed,
}

impl ResolutionError {
    /// The HTTP status that reports this error: 400 for a malformed mint,
    /// 404 when there is no metadata account, 502 when the ledger read
    /// failed, and 500 when the account's data cannot be decoded.
    pub fn status_code(&self) -> (r: u16)
        ensures
            r == match self {
                ResolutionError::InvalidMint => 400u16,
                ResolutionError::NoMetadataAccount => 404u16,
                ResolutionError::FetchFailed(_) => 502u16,
                ResolutionError::DecodeFailed => 500u16,
            },
    {
        match self {
            ResolutionError::InvalidMint => 400,
            ResolutionError::NoMetadataAccount => 404,
            ResolutionError::FetchFailed(_) => 502,
            ResolutionError::DecodeFailed => 500,
        }
    }
}

/// A creator of a token, with its address as base-58 text.
#[derive(Clone, Debug)]
pub struct JSONCreator {
    pub address: String,
    pub verified: bool,
    pub share: u8,
}

/// The metadata of a token, strings stripped of their padding.
#[derive(Clone, Debug)]
pub struct NFTMetadata {
    pub name: String,
    pub symbol: String,
    pub seller_fee_basis_points: u16,
    pub uri: String,
    pub creators: Vec<JSONCreator>,
}

pub struct JSONCreatorView {
    pub address: Seq<char>,
    pub verified: bool,
    pub share: u8,
}

pub struct NFTMetadataView {
    pub name: Seq<char>,
    pub symbol: Seq<char>,
    pub seller_fee_basis_points: u16,
    pub uri: Seq<char>,
    pub creators: Seq<JSONCreatorView>,
}

impl View for JSONCreator {
    type V = JSONCreatorView;

    open spec fn view(&self) -> JSONCreatorView {
        JSONCreatorView { address: self.address@, verified: self.verified, share: self.share }
    }
}

impl View for NFTMetadata {
    type V = NFTMetadataView;

    open spec fn view(&self) -> NFTMetadataView {
        NFTMetadataView {
            name: self.name@,
            symbol: self.symbol@,
            seller_fee_basis_points: self.seller_fee_basis_points,
            uri: self.uri@,
            creators: self.creators@.map_values(|c: JSONCreator| c@),
        }
    }
}

/// `b` without its trailing zero bytes.
pub open spec fn strip_nul(b: Seq<u8>) -> Seq<u8>
    decreases b.len(),
{
    if b.len() > 0 && b.last() == 0 {
        strip_nul(b.drop_last())
    } else {
        b
    }
}

/// The text of a padded string field: its bytes without trailing NULs, read
/// as UTF-8; `None` when they are not UTF-8.
pub open spec fn text_of(b: Seq<u8>) -> Option<Seq<char>> {
    if valid_utf8(strip_nul(b)) {
        Some(decode_utf8(strip_nul(b)))
    } else {
        None
    }
}

/// A creator as it is returned: its address as text.
pub open spec fn json_creator_of(c: CreatorView) -> JSONCreatorView {
    JSONCreatorView { address: base58_text(c.address), verified: c.verified, share: c.share }
}

/// The returned metadata of a decoded record; no creator list gives none.
pub open spec fn token_of(r: RecordView) -> Option<NFTMetadataView> {
    match (text_of(r.name), text_of(r.symbol), text_of(r.uri)) {
        (Some(name), Some(symbol), Some(uri)) => Some(
            NFTMetadataView {
                name,
                symbol,
                seller_fee_basis_points: r.seller_fee_basis_points,
                uri,
                creators: match r.creators {
                    Some(cs) => cs.map_values(|c: CreatorView| json_creator_of(c)),
                    None => Seq::empty(),
                },
            },
        ),
        _ => None,
    }
}

/// The metadata that a metadata account's bytes hold, if any.
pub open spec fn decoded_token(s: Seq<u8>) -> Option<NFTMetadataView> {
    match parse_record(s) {
        Some(r) => token_of(r),
        None => None,
    }
}

/// Relies on `String::from_utf8`: it succeeds exactly on well-formed UTF-8,
/// and the string then holds the characters those bytes encode.
#[verifier::external_body]
fn string_from_utf8(v: Vec<u8>) -> (r: Option<String>)
    ensures
        r is Some <==> valid_utf8(v@),
        r matches Some(s) ==> s@ == decode_utf8(v@),
{
    String::from_utf8(v).ok()
}

/// Copies `b` without its trailing zero bytes.
pub fn strip_padding(b: &Vec<u8>) -> (r: Vec<u8>)
    ensures
        r@ == strip_nul(b@),
{
    let mut end: usize = b.len();
    assert(b@.subrange(0, end as int) =~= b@);
    while end > 0 && b[end - 1] == 0
        invariant
            end <= b@.len(),
            strip_nul(b@) == strip_nul(b@.subrange(0, end as int)),
        decreases end,
    {
        assert(b@.subrange(0, end as int).drop_last() =~= b@.subrange(0, end - 1));
        end = end - 1;
    }
    let mut r: Vec<u8> = Vec::with_capacity(end);
    let mut i: usize = 0;
    while i < end
        invariant
            i <= end,
            end <= b@.len(),
            r@ =~= b@.subrange(0, i as int),
        decreases end - i,
    {
        r.push(b[i]);
        i = i + 1;
        assert(r@ =~= b@.subrange(0, i as int));
    }
    assert(b@.subrange(0, end as int) == strip_nul(b@.subrange(0, end as int)));
    r
}

/// The text of a padded string field, or `None` when it is not UTF-8.
pub fn text_field(b: &Vec<u8>) -> (r: Option<String>)
    ensures
        match r {
            Some(s) => text_of(b@) == Some(s@),
            None => text_of(b@) is None,
        },
{
    string_from_utf8(strip_padding(b))
}

/// The returned form of a creator: its address as base-58 text.
pub fn json_creator(c: &Creator) -> (r: JSONCreator)
    ensures
        r@ == json_creator_of(c@),
{
    JSONCreator { address: c.address.to_text(), verified: c.verified, share: c.share }
}

/// Turns a decoded record into the returned metadata: strings stripped of
/// their padding and read as UTF-8, creator addresses as text, no creator
/// list as an empty one. Fails with `DecodeFailed` when a string is not UTF-8.
pub fn to_token_metadata(m: &MetadataRecord) -> (r: Result<NFTMetadata, ResolutionError>)
    ensures
        match r {
            Ok(t) => token_of(m@) == Some(t@),
            Err(e) => token_of(m@) is None && e == ResolutionError::DecodeFailed,
        },
{
    let name = match text_field(&m.name) {
        Some(s) => s,
        None => return Err(ResolutionError::DecodeFailed),
    };
    let symbol = match text_field(&m.symbol) {
        Some(s) => s,
        None => return Err(ResolutionError::DecodeFailed),
    };
    let uri = match text_field(&m.uri) {
        Some(s) => s,
        None => return Err(ResolutionError::DecodeFailed),
    };
    let mut creators: Vec<JSONCreator> = Vec::new();
    match &m.creators {
        Some(cs) => {
            let mut i: usize = 0;
            while i < cs.len()
                invariant
                    i <= cs@.len(),
                    creators@.len() == i,
                    forall|j: int| 0 <= j < i ==> #[trigger] creators@[j]@ == json_creator_of(cs@[j]@),
                decreases cs.len() - i,
            {
                creators.push(json_creator(&cs[i]));
                i = i + 1;
            }
            let ghost want = cs@.map_values(|x: Creator| x@).map_values(
                |c: CreatorView| json_creator_of(c),
            );
            assert(creators@.map_values(|c: JSONCreator| c@) =~= want);
        },
        None => {
            assert(creators@.map_values(|c: JSONCreator| c@) =~= Seq::<JSONCreatorView>::empty());
        },
    }
    Ok(NFTMetadata { name, symbol, seller_fee_basis_points: m.seller_fee_basis_points, uri, creators })
}

/// Decodes the bytes of a metadata account, from the front and ignoring what
/// follows the record, into the returned metadata. Fails with
/// `DecodeFailed`, and only with it, when the bytes hold no whole record or a
/// string of it is not UTF-8.
pub fn decode_metadata(data: &[u8]) -> (r: Result<NFTMetadata, ResolutionError>)
    ensures
        match r {
            Ok(t) => decoded_token(data@) == Some(t@),
            Err(e) => decoded_token(data@) is None && e == ResolutionError::DecodeFailed,
        },
{
    match decode_record(data) {
        Some(m) => to_token_metadata(&m),
        None => Err(ResolutionError::DecodeFailed),
    }
}

/// The metadata account to read for the mint whose base-58 text is
/// `mint_account`. Fails with `InvalidMint` when the text is no address, and
/// with `NoMetadataAccount` when no account address can be derived.
pub fn metadata_address(mint_account: &str) -> (r: Result<Address, ResolutionError>)
    ensures
        match base58_pubkey(mint_account@) {
            None => r == Err::<Address, ResolutionError>(ResolutionError::InvalidMint),
            Some(mint) => match metadata_pda(mint) {
                None => r == Err::<Address, ResolutionError>(ResolutionError::NoMetadataAccount),
                Some(pda) => r matches Ok(a) && a@ == pda,
            },
        },
{
    let mint = match Address::parse(mint_account) {
        Some(a) => a,
        None => return Err(ResolutionError::InvalidMint),
    };
    match get_metadata_pda(mint) {
        Some(pda) => Ok(pda),
        None => Err(ResolutionError::NoMetadataAccount),
    }
}

/// Finishes a resolution with what the read of the metadata account
/// returned: a failed read becomes `FetchFailed` with its cause, never
/// `DecodeFailed`; bytes are decoded as `decode_metadata` does.
pub fn complete_resolution(fetched: Result<Vec<u8>, String>) -> (r: Result<NFTMetadata, ResolutionError>)
    ensures
        match fetched {
            Err(cause) => r == Err::<NFTMetadata, ResolutionError>(ResolutionError::FetchFailed(cause)),
            Ok(data) => match r {
                Ok(t) => decoded_token(data@) == Some(t@),
                Err(e) => decoded_token(data@) is None && e == ResolutionError::DecodeFailed,
            },
        },
{
    match fetched {
        Err(cause) => Err(ResolutionError::FetchFailed(cause)),
        Ok(data) => decode_metadata(data.as_slice()),
    }
}

/// `k` zero bytes.
pub open spec fn nul_padding(k: nat) -> Seq<u8> {
    Seq::new(k, |i: int| 0u8)
}

/// Whether `b` is text that padding can follow: UTF-8 not ending in a NUL.
pub open spec fn padded_text(b: Seq<u8>) -> bool {
    valid_utf8(b) && (b.len() == 0 || b.last() != 0)
}

/// Stripping removes exactly the padding added after text that does not
/// end in a NUL.
pub proof fn lemma_strip_padding(b: Seq<u8>, k: nat)
    requires
        b.len() == 0 || b.last() != 0,
    ensures
        strip_nul(b + nul_padding(k)) == b,
    decreases k,
{
    if k == 0 {
        assert(b + nul_padding(0) =~= b);
    } else {
        let s = b + nul_padding(k);
        assert(s.last() == 0);
        assert(s.drop_last() =~= b + nul_padding((k - 1) as nat));
        lemma_strip_padding(b, (k - 1) as nat);
    }
}

/// Round trip through the whole decode: a storable record whose name,
/// symbol and URI are UTF-8 text followed by NUL padding, stored and followed
/// by any bytes, decodes to that text, its royalty and its creators.
pub proof fn lemma_round_trip(
    r: RecordView,
    tail: Seq<u8>,
    name: Seq<u8>,
    symbol: Seq<u8>,
    uri: Seq<u8>,
    name_pad: nat,
    symbol_pad: nat,
    uri_pad: nat,
)
    requires
        record_storable(r),
        padded_text(name),
        padded_text(symbol),
        padded_text(uri),
        r.name == name + nul_padding(name_pad),
        r.symbol == symbol + nul_padding(symbol_pad),
        r.uri == uri + nul_padding(uri_pad),
    ensures
        decoded_token(encode_record(r) + tail) == Some(
            NFTMetadataView {
                name: decode_utf8(name),
                symbol: decode_utf8(symbol),
                seller_fee_basis_points: r.seller_fee_basis_points,
                uri: decode_utf8(uri),
                creators: match r.creators {
                    Some(cs) => cs.map_values(|c: CreatorView| json_creator_of(c)),
                    None => Seq::empty(),
                },
            },
        ),
{
    lemma_decode_encode(r, tail);
    lemma_strip_padding(name, name_pad);
    lemma_strip_padding(symbol, symbol_pad);
    lemma_strip_padding(uri, uri_pad);
}

} // verus!
