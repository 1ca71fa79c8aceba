//! The binary layout of a metadata account and its decoder.
//!
//! An account holds, from its first byte: a one-byte key, the update
//! authority and the mint (32 bytes each), the name, symbol and URI (each a
//! 4-byte little-endian length and that many bytes), the royalty in basis
//! points (2 bytes, little-endian), the creators (a flag byte, 0 for none and
//! 1 for a list, then a 4-byte count and 34 bytes per creator: address,
//! verified flag, share), and two flag bytes (primary sale happened, mutable).
//! Flag bytes are 0 or 1. The account is padded: whatever follows is ignored.

use crate::address::Address;
use vstd::prelude::*;

verus! {

/// Bytes before the name's characters: key, two addresses, length prefix.
pub const HEADER_LEN: usize = 69;

/// Offset of the name's length prefix.
pub const NAME_OFFSET: usize = 65;

/// Bytes taken by one creator record.
pub const CREATOR_LEN: usize = 34;

/// A creator as the account stores it.
pub struct CreatorView {
    pub address: Seq<u8>,
    pub verified: bool,
    pub share: u8,
}

/// A metadata account's contents; strings are raw bytes with their padding.
pub struct RecordView {
    pub key: u8,
    pub update_authority: Seq<u8>,
    pub mint: Seq<u8>,
    pub name: Seq<u8>,
    pub symbol: Seq<u8>,
    pub uri: Seq<u8>,
    pub seller_fee_basis_points: u16,
    pub creators: Option<Seq<CreatorView>>,
    pub primary_sale_happened: bool,
    pub is_mutable: bool,
}

/// The little-endian number in the four bytes of `s` at `p`.
pub open spec fn u32_le(s: Seq<u8>, p: int) -> int {
    s[p] + 256 * s[p + 1] + 65536 * s[p + 2] + 16777216 * s[p + 3]
}

/// The little-endian number in the two bytes of `s` at `p`.
pub open spec fn u16_le(s: Seq<u8>, p: int) -> int {
    s[p] + 256 * s[p + 1]
}

/// A flag byte: `None` unless it is 0 or 1.
pub open spec fn flag(b: u8) -> Option<bool> {
    if b == 0 {
        Some(false)
    } else if b == 1 {
        Some(true)
    } else {
        None
    }
}

/// A length-prefixed byte string at `p`, and the position after it.
pub open spec fn parse_bytes(s: Seq<u8>, p: int) -> Option<(Seq<u8>, int)> {
    if 0 <= p && p + 4 <= s.len() && p + 4 + u32_le(s, p) <= s.len() {
        Some((s.subrange(p + 4, p + 4 + u32_le(s, p)), p + 4 + u32_le(s, p)))
    } else {
        None
    }
}

/// The `i`-th creator record of a list whose records start at `p`.
pub open spec fn creator_at(s: Seq<u8>, p: int, i: int) -> CreatorView {
    let q = p + CREATOR_LEN * i;
    CreatorView { address: s.subrange(q, q + 32), verified: s[q + 32] == 1, share: s[q + 33] }
}

/// Whether `n` well-formed creator records start at `p`.
pub open spec fn creators_fit(s: Seq<u8>, p: int, n: int) -> bool {
    &&& 0 <= p
    &&& p + CREATOR_LEN * n <= s.len()
    &&& forall|i: int| 0 <= i < n ==> #[trigger] flag(s[p + CREATOR_LEN * i + 32]) is Some
}

/// The optional creator list at `p`, and the position after it.
pub open spec fn parse_creators(s: Seq<u8>, p: int) -> Option<(Option<Seq<CreatorView>>, int)> {
    if !(0 <= p < s.len()) {
        None
    } else if s[p] == 0 {
        Some((None, p + 1))
    } else if s[p] == 1 && p + 5 <= s.len() && creators_fit(s, p + 5, u32_le(s, p + 1)) {
        let n = u32_le(s, p + 1);
        Some((Some(Seq::new(n as nat, |i: int| creator_at(s, p + 5, i))), p + 5 + CREATOR_LEN * n))
    } else {
        None
    }
}

/// The record that a metadata account's bytes hold, or `None` when a field
/// is missing, a declared length runs past the end, or a flag byte is
/// neither 0 nor 1.
pub open spec fn parse_record(s: Seq<u8>) -> Option<RecordView> {
    if s.len() < HEADER_LEN {
        None
    } else {
        match parse_bytes(s, NAME_OFFSET as int) {
            None => None,
            Some((name, after_name)) => match parse_bytes(s, after_name) {
                None => None,
                Some((symbol, after_symbol)) => match parse_bytes(s, after_symbol) {
                    None => None,
                    Some((uri, after_uri)) => if after_uri + 2 > s.len() {
                        None
                    } else {
                        match parse_creators(s, after_uri + 2) {
                            None => None,
                            Some((creators, after_creators)) => if after_creators + 2 > s.len() || flag(s[after_creators]) is None
                                || flag(s[after_creators + 1]) is None {
                                None
                            } else {
                                Some(
                                    RecordView {
                                        key: s[0],
                                        update_authority: s.subrange(1, 33),
                                        mint: s.subrange(33, 65),
                                        name,
                                        symbol,
                                        uri,
                                        seller_fee_basis_points: u16_le(s, after_uri) as u16,
                                        creators,
                                        primary_sale_happened: s[after_creators] == 1,
                                        is_mutable: s[after_creators + 1] == 1,
                                    },
                                )
                            },
                        }
                    },
                },
            },
        }
    }
}

/// A creator record of a metadata account.
#[derive(Clone, Copy, Debug)]
pub struct Creator {
    pub address: Address,
    pub verified: bool,
    pub share: u8,
}

impl View for Creator {
    type V = CreatorView;

    open spec fn view(&self) -> CreatorView {
        CreatorView { address: self.address@, verified: self.verified, share: self.share }
    }
}

/// The decoded contents of a metadata account, strings still padded.
#[derive(Clone, Debug)]
pub struct MetadataRecord {
    pub key: u8,
    pub update_authority: Address,
    pub mint: Address,
    pub name: Vec<u8>,
    pub symbol: Vec<u8>,
    pub uri: Vec<u8>,
    pub seller_fee_basis_points: u16,
    pub creators: Option<Vec<Creator>>,
    pub primary_sale_happened: bool,
    pub is_mutable: bool,
}

/// The view of an optional creator list.
pub open spec fn creators_view(c: Option<Vec<Creator>>) -> Option<Seq<CreatorView>> {
    match c {
        Some(v) => Some(v@.map_values(|x: Creator| x@)),
        None => None,
    }
}

impl View for MetadataRecord {
    type V = RecordView;

    open spec fn view(&self) -> RecordView {
        RecordView {
            key: self.key,
            update_authority: self.update_authority@,
            mint: self.mint@,
            name: self.name@,
            symbol: self.symbol@,
            uri: self.uri@,
            seller_fee_basis_points: self.seller_fee_basis_points,
            creators: creators_view(self.creators),
            primary_sale_happened: self.primary_sale_happened,
            is_mutable: self.is_mutable,
        }
    }
}

fn read_u32(data: &[u8], p: usize) -> (r: u32)
    requires
        p + 4 <= data@.len(),
    ensures
        r as int == u32_le(data@, p as int),
{
    data[p] as u32 + 256 * (data[p + 1] as u32) + 65536 * (data[p + 2] as u32) + 16777216 * (
    data[p + 3] as u32)
}

fn read_address(data: &[u8], p: usize) -> (r: Address)
    requires
        p + 32 <= data@.len(),
    ensures
        r@ == data@.subrange(p as int, p + 32),
{
    let mut bytes = [0u8; 32];
    let mut i: usize = 0;
    while i < 32
        invariant
            i <= 32,
            p + 32 <= data.len(),
            bytes@.len() == 32,
            forall|j: int| 0 <= j < i ==> bytes@[j] == data@[p + j],
        decreases 32 - i,
    {
        bytes[i] = data[p + i];
        i = i + 1;
    }
    assert(bytes@ =~= data@.subrange(p as int, p + 32));
    Address { bytes }
}

fn read_flag(b: u8) -> (r: Option<bool>)
    ensures
        r == flag(b),
{
    if b == 0 {
        Some(false)
    } else if b == 1 {
        Some(true)
    } else {
        None
    }
}

fn read_bytes(data: &[u8], p: usize) -> (r: Option<(Vec<u8>, usize)>)
    ensures
        match r {
            Some((v, q)) => parse_bytes(data@, p as int) == Some((v@, q as int)),
            None => parse_bytes(data@, p as int) is None,
        },
{
    if p > data.len() || data.len() - p < 4 {
        return None;
    }
    let n = read_u32(data, p) as usize;
    if n > data.len() - p - 4 {
        return None;
    }
    let start = p + 4;
    let mut v: Vec<u8> = Vec::with_capacity(n);
    let mut i: usize = 0;
    while i < n
        invariant
            i <= n,
            start + n <= data.len(),
            v@ =~= data@.subrange(start as int, start + i),
        decreases n - i,
    {
        v.push(data[start + i]);
        i = i + 1;
        assert(v@ =~= data@.subrange(start as int, start + i));
    }
    Some((v, start + n))
}

fn read_creators(data: &[u8], p: usize) -> (r: Option<(Option<Vec<Creator>>, usize)>)
    ensures
        match r {
            Some((c, q)) => parse_creators(data@, p as int) == Some((creators_view(c), q as int)),
            None => parse_creators(data@, p as int) is None,
        },
{
    if p >= data.len() {
        return None;
    }
    if data[p] == 0 {
        return Some((None, p + 1));
    }
    if data[p] != 1 || data.len() - p < 5 {
        return None;
    }
    let n = read_u32(data, p + 1) as usize;
    let start = p + 5;
    if n > (data.len() - start) / CREATOR_LEN {
        proof {
            if creators_fit(data@, start as int, n as int) {
                assert(CREATOR_LEN * (n as int) <= data@.len() - start);
                assert(n as int <= (data@.len() - start) / (CREATOR_LEN as int)) by (nonlinear_arith)
                    requires
                        CREATOR_LEN * (n as int) <= data@.len() - start,
                        CREATOR_LEN == 34,
                ;
            }
        }
        return None;
    }
    assert(CREATOR_LEN * (n as int) <= data@.len() - start) by (nonlinear_arith)
        requires
            n as int <= (data@.len() - start) / (CREATOR_LEN as int),
            data@.len() >= start,
            CREATOR_LEN == 34,
    ;
    let mut v: Vec<Creator> = Vec::with_capacity(n);
    let mut i: usize = 0;
    let mut q: usize = start;
    while i < n
        invariant
            i <= n,
            q == start + CREATOR_LEN * i,
            start == p + 5,
            data@[p as int] == 1,
            start + CREATOR_LEN * n <= data.len(),
            n == u32_le(data@, p + 1),
            v@.len() == i,
            forall|j: int| 0 <= j < i ==> #[trigger] v@[j]@ == creator_at(data@, start as int, j),
            forall|j: int|
                0 <= j < i ==> #[trigger] flag(data@[start + CREATOR_LEN * j + 32]) is Some,
        decreases n - i,
    {
        assert(q + CREATOR_LEN <= start + CREATOR_LEN * n) by (nonlinear_arith)
            requires
                q == start + CREATOR_LEN * i,
            start == p + 5,
            data@[p as int] == 1,
                i < n,
        ;
        let address = read_address(data, q);
        let verified = match read_flag(data[q + 32]) {
            Some(b) => b,
            None => {
                proof {
                    assert(flag(data@[start + CREATOR_LEN * (i as int) + 32]) is None);
                    assert(!creators_fit(data@, start as int, n as int));
                    assert(parse_creators(data@, p as int) is None);
                }
                return None;
            },
        };
        v.push(Creator { address, verified, share: data[q + 33] });
        i = i + 1;
        q = q + CREATOR_LEN;
    }
    let ghost cs = v@.map_values(|x: Creator| x@);
    assert(cs =~= Seq::new(n as nat, |j: int| creator_at(data@, start as int, j)));
    Some((Some(v), q))
}

/// Decodes a metadata account from the front of `data`, ignoring whatever
/// follows the record; `None` when the bytes do not hold a whole record.
pub fn decode_record(data: &[u8]) -> (r: Option<MetadataRecord>)
    ensures
        match r {
            Some(m) => parse_record(data@) == Some(m@),
            None => parse_record(data@) is None,
        },
{
    if data.len() < HEADER_LEN {
        return None;
    }
    let (name, after_name) = match read_bytes(data, NAME_OFFSET) {
        Some(x) => x,
        None => return None,
    };
    let (symbol, after_symbol) = match read_bytes(data, after_name) {
        Some(x) => x,
        None => return None,
    };
    let (uri, after_uri) = match read_bytes(data, after_symbol) {
        Some(x) => x,
        None => return None,
    };
    if data.len() - after_uri < 2 {
        return None;
    }
    let fee = data[after_uri] as u16 + 256 * (data[after_uri + 1] as u16);
    let (creators, after_creators) = match read_creators(data, after_uri + 2) {
        Some(x) => x,
        None => return None,
    };
    if data.len() - after_creators < 2 {
        return None;
    }
    let primary_sale_happened = match read_flag(data[after_creators]) {
        Some(b) => b,
        None => return None,
    };
    let is_mutable = match read_flag(data[after_creators + 1]) {
        Some(b) => b,
        None => return None,
    };
    let update_authority = read_address(data, 1);
    let mint = read_address(data, 33);
    let m = MetadataRecord {
        key: data[0],
        update_authority,
        mint,
        name,
        symbol,
        uri,
        seller_fee_basis_points: fee,
        creators,
        primary_sale_happened,
        is_mutable,
    };
    assert(m@.name == name@);
    Some(m)
}

/// The four little-endian bytes of `n`.
#[verifier::opaque]
pub open spec fn u32_bytes(n: int) -> Seq<u8> {
    seq![
        (n % 256) as u8,
        ((n / 256) % 256) as u8,
        ((n / 256 / 256) % 256) as u8,
        ((n / 256 / 256 / 256) % 256) as u8,
    ]
}

/// The two little-endian bytes of `n`.
pub open spec fn u16_bytes(n: u16) -> Seq<u8> {
    seq![(n % 256) as u8, (n / 256) as u8]
}

/// The byte that stores a flag.
pub open spec fn flag_byte(b: bool) -> u8 {
    if b {
        1
    } else {
        0
    }
}

/// A byte string with its length prefix.
pub open spec fn encode_bytes(b: Seq<u8>) -> Seq<u8> {
    u32_bytes(b.len() as int) + b
}

/// The 34 bytes of a creator record.
pub open spec fn encode_creator(c: CreatorView) -> Seq<u8> {
    c.address + seq![flag_byte(c.verified), c.share]
}

/// The creator records of `cs`, one after the other.
pub open spec fn encode_creator_list(cs: Seq<CreatorView>) -> Seq<u8>
    decreases cs.len(),
{
    if cs.len() == 0 {
        Seq::empty()
    } else {
        encode_creator_list(cs.drop_last()) + encode_creator(cs.last())
    }
}

/// An optional creator list: its flag byte, then count and records.
pub open spec fn encode_creators(c: Option<Seq<CreatorView>>) -> Seq<u8> {
    match c {
        None => seq![0u8],
        Some(cs) => seq![1u8] + u32_bytes(cs.len() as int) + encode_creator_list(cs),
    }
}

/// The bytes that store `r` in a metadata account, without padding.
pub open spec fn encode_record(r: RecordView) -> Seq<u8> {
    seq![r.key] + r.update_authority + r.mint + encode_bytes(r.name) + encode_bytes(r.symbol)
        + encode_bytes(r.uri) + u16_bytes(r.seller_fee_basis_points) + encode_creators(r.creators)
        + seq![flag_byte(r.primary_sale_happened), flag_byte(r.is_mutable)]
}

/// Whether a creator can be stored: its address has 32 bytes.
pub open spec fn creator_storable(c: CreatorView) -> bool {
    c.address.len() == 32
}

/// Whether `r` can be stored: addresses of 32 bytes, and every length fits
/// its 4-byte prefix.
pub open spec fn record_storable(r: RecordView) -> bool {
    &&& r.update_authority.len() == 32
    &&& r.mint.len() == 32
    &&& r.name.len() <= u32::MAX
    &&& r.symbol.len() <= u32::MAX
    &&& r.uri.len() <= u32::MAX
    &&& r.creators matches Some(cs) ==> cs.len() <= u32::MAX && forall|i: int|
        0 <= i < cs.len() ==> creator_storable(#[trigger] cs[i])
}

proof fn lemma_u32_bytes(n: int)
    requires
        0 <= n <= u32::MAX,
    ensures
        u32_le(u32_bytes(n), 0) == n,
        u32_bytes(n).len() == 4,
{
    reveal(u32_bytes);
}

proof fn lemma_at(s: Seq<u8>, p: int, e: Seq<u8>)
    requires
        0 <= p,
        p + e.len() <= s.len(),
        s.subrange(p, p + e.len()) == e,
    ensures
        forall|i: int| 0 <= i < e.len() ==> s[p + i] == #[trigger] e[i],
{
    assert forall|i: int| 0 <= i < e.len() implies s[p + i] == #[trigger] e[i] by {
        assert(s.subrange(p, p + e.len())[i] == s[p + i]);
    }
}

proof fn lemma_split(s: Seq<u8>, a: Seq<u8>, b: Seq<u8>)
    requires
        a.len() + b.len() <= s.len(),
        s.subrange(0, (a.len() + b.len()) as int) == a + b,
    ensures
        s.subrange(0, a.len() as int) == a,
        s.subrange(a.len() as int, (a.len() + b.len()) as int) == b,
{
    lemma_at(s, 0, a + b);
    assert forall|i: int| 0 <= i < b.len() implies s[a.len() + i] == b[i] by {
        assert((a + b)[a.len() + i] == b[i]);
    }
    assert forall|i: int| 0 <= i < a.len() implies s[i] == a[i] by {
        assert((a + b)[i] == a[i]);
    }
    assert(s.subrange(0, a.len() as int) =~= a);
    assert(s.subrange(a.len() as int, (a.len() + b.len()) as int) =~= b);
}

proof fn lemma_parse_bytes_at(s: Seq<u8>, p: int, b: Seq<u8>)
    requires
        0 <= p,
        p + 4 + b.len() <= s.len(),
        b.len() <= u32::MAX,
        s.subrange(p, p + 4 + b.len()) == encode_bytes(b),
    ensures
        parse_bytes(s, p) == Some((b, p + 4 + b.len())),
{
    lemma_u32_bytes(b.len() as int);
    let e = encode_bytes(b);
    lemma_at(s, p, e);
    assert(s[p] == e[0] && s[p + 1] == e[1] && s[p + 2] == e[2] && s[p + 3] == e[3]);
    assert(u32_le(s, p) == b.len());
    assert forall|i: int| 0 <= i < b.len() implies s[p + 4 + i] == b[i] by {
        assert(e[4 + i] == b[i]);
    }
    assert(s.subrange(p + 4, p + 4 + b.len()) =~= b);
}

proof fn lemma_creator_list(cs: Seq<CreatorView>)
    requires
        forall|i: int| 0 <= i < cs.len() ==> creator_storable(#[trigger] cs[i]),
    ensures
        encode_creator_list(cs).len() == CREATOR_LEN * cs.len(),
        forall|i: int|
            0 <= i < cs.len() ==> encode_creator_list(cs).subrange(
                CREATOR_LEN * i,
                CREATOR_LEN * i + CREATOR_LEN,
            ) == encode_creator(#[trigger] cs[i]),
    decreases cs.len(),
{
    if cs.len() > 0 {
        let init = cs.drop_last();
        assert forall|i: int| 0 <= i < init.len() implies creator_storable(#[trigger] init[i]) by {
            assert(init[i] == cs[i]);
        }
        lemma_creator_list(init);
        let l = encode_creator_list(cs);
        let li = encode_creator_list(init);
        assert forall|i: int| 0 <= i < cs.len() implies l.subrange(
            CREATOR_LEN * i,
            CREATOR_LEN * i + CREATOR_LEN,
        ) == encode_creator(#[trigger] cs[i]) by {
            if i < init.len() {
                assert(init[i] == cs[i]);
                assert(li.subrange(CREATOR_LEN * i, CREATOR_LEN * i + CREATOR_LEN) == encode_creator(init[i]));
                assert(l.subrange(CREATOR_LEN * i, CREATOR_LEN * i + CREATOR_LEN) =~= li.subrange(
                    CREATOR_LEN * i,
                    CREATOR_LEN * i + CREATOR_LEN,
                ));
            } else {
                assert(l.subrange(CREATOR_LEN * i, CREATOR_LEN * i + CREATOR_LEN) =~= encode_creator(
                    cs.last(),
                ));
            }
        }
    }
}

proof fn lemma_parse_creators_at(s: Seq<u8>, p: int, c: Option<Seq<CreatorView>>)
    requires
        0 <= p,
        p + encode_creators(c).len() <= s.len(),
        s.subrange(p, p + encode_creators(c).len()) == encode_creators(c),
        c matches Some(cs) ==> cs.len() <= u32::MAX && forall|i: int|
            0 <= i < cs.len() ==> creator_storable(#[trigger] cs[i]),
    ensures
        parse_creators(s, p) == Some((c, p + encode_creators(c).len())),
{
    let e = encode_creators(c);
    lemma_at(s, p, e);
    assert(s[p] == e[0]);
    match c {
        None => {},
        Some(cs) => {
            lemma_u32_bytes(cs.len() as int);
            lemma_creator_list(cs);
            let n = cs.len() as int;
            let l = encode_creator_list(cs);
            assert(s[p + 1] == e[1] && s[p + 2] == e[2] && s[p + 3] == e[3] && s[p + 4] == e[4]);
            assert(u32_le(s, p + 1) == n);
            assert forall|i: int| 0 <= i < l.len() implies s[p + 5 + i] == l[i] by {
                assert(e[5 + i] == l[i]);
            }
            assert(s.subrange(p + 5, p + 5 + CREATOR_LEN * n) =~= l);
            assert forall|i: int| 0 <= i < n implies creator_at(s, p + 5, i) == cs[i] && flag(
                s[p + 5 + CREATOR_LEN * i + 32],
            ) is Some by {
                let q = p + 5 + CREATOR_LEN * i;
                let ec = l.subrange(CREATOR_LEN * i, CREATOR_LEN * i + CREATOR_LEN);
                assert(ec == encode_creator(cs[i]));
                assert(CREATOR_LEN * i + CREATOR_LEN <= l.len()) by (nonlinear_arith)
                    requires
                        0 <= i < n,
                        l.len() == CREATOR_LEN * n,
                ;
                assert forall|k: int| 0 <= k < CREATOR_LEN implies s[q + k] == ec[k] by {
                    assert(l[CREATOR_LEN * i + k] == ec[k]);
                }
                assert(creator_storable(cs[i]));
                assert forall|k: int| 0 <= k < 32 implies s[q + k] == cs[i].address[k] by {
                    assert(s[q + k] == ec[k]);
                    assert(ec[k] == cs[i].address[k]);
                }
                assert(s.subrange(q, q + 32) =~= cs[i].address);
                assert(s[q + 32] == ec[32]);
                assert(s[q + 33] == ec[33]);
            }
            assert(e.len() == 5 + l.len());
            assert(p + 5 + CREATOR_LEN * n <= s.len());
            let records_at = p + 5;
            assert forall|i: int| 0 <= i < n implies #[trigger] flag(s[records_at + CREATOR_LEN * i + 32]) is Some by {
                let ec = l.subrange(CREATOR_LEN * i, CREATOR_LEN * i + CREATOR_LEN);
                assert(ec == encode_creator(cs[i]));
                assert(CREATOR_LEN * i + CREATOR_LEN <= l.len()) by (nonlinear_arith)
                    requires
                        0 <= i < n,
                        l.len() == CREATOR_LEN * n,
                ;
                assert(s[p + 5 + (CREATOR_LEN * i + 32)] == l[CREATOR_LEN * i + 32]);
                assert(l[CREATOR_LEN * i + 32] == ec[32]);
            }
            assert(creators_fit(s, records_at, n));
            assert(Seq::new(n as nat, |i: int| creator_at(s, p + 5, i)) =~= cs);
        },
    }
}

/// Decoding inverts encoding: the bytes of a storable record, followed by
/// any padding, decode to that same record.
#[verifier::rlimit(100)]
pub proof fn lemma_decode_encode(r: RecordView, tail: Seq<u8>)
    requires
        record_storable(r),
    ensures
        parse_record(encode_record(r) + tail) == Some(r),
{
    let s = encode_record(r) + tail;
    let e0 = seq![r.key] + r.update_authority + r.mint;
    let c1 = encode_bytes(r.name);
    let c2 = encode_bytes(r.symbol);
    let c3 = encode_bytes(r.uri);
    let c4 = u16_bytes(r.seller_fee_basis_points);
    let c5 = encode_creators(r.creators);
    let c6 = seq![flag_byte(r.primary_sale_happened), flag_byte(r.is_mutable)];
    let e1 = e0 + c1;
    let e2 = e1 + c2;
    let e3 = e2 + c3;
    let e4 = e3 + c4;
    let e5 = e4 + c5;
    let e6 = e5 + c6;
    lemma_u32_bytes(r.name.len() as int);
    lemma_u32_bytes(r.symbol.len() as int);
    lemma_u32_bytes(r.uri.len() as int);
    assert(e0.len() == 65);
    assert(c1.len() == 4 + r.name.len());
    assert(c2.len() == 4 + r.symbol.len());
    assert(c3.len() == 4 + r.uri.len());
    assert(e6 == encode_record(r));
    assert(s.subrange(0, e6.len() as int) =~= e6);
    lemma_split(s, e5, c6);
    lemma_split(s, e4, c5);
    lemma_split(s, e3, c4);
    lemma_split(s, e2, c3);
    lemma_split(s, e1, c2);
    lemma_split(s, e0, c1);
    assert(s[0] == r.key);
    assert(s.subrange(1, 33) =~= e0.subrange(1, 33));
    assert(s.subrange(1, 33) =~= r.update_authority);
    assert(s.subrange(33, 65) =~= e0.subrange(33, 65));
    assert(s.subrange(33, 65) =~= r.mint);
    lemma_parse_bytes_at(s, 65, r.name);
    lemma_parse_bytes_at(s, e1.len() as int, r.symbol);
    lemma_parse_bytes_at(s, e2.len() as int, r.uri);
    let after_uri = e3.len() as int;
    assert(s[after_uri] == c4[0] && s[after_uri + 1] == c4[1]);
    assert(u16_le(s, after_uri) == r.seller_fee_basis_points);
    lemma_parse_creators_at(s, e4.len() as int, r.creators);
    let after_creators = e5.len() as int;
    assert(s[after_creators] == c6[0] && s[after_creators + 1] == c6[1]);
}

/// Bytes too short for the header (key, both addresses and the name's
/// length) never decode.
pub proof fn lemma_short_input_rejected(s: Seq<u8>)
    requires
        s.len() < HEADER_LEN,
    ensures
        parse_record(s) is None,
{
}

/// A name whose declared length runs past the end of the bytes never
/// decodes.
pub proof fn lemma_overlong_name_rejected(s: Seq<u8>)
    requires
        s.len() >= HEADER_LEN,
        u32_le(s, NAME_OFFSET as int) > s.len() - HEADER_LEN,
    ensures
        parse_record(s) is None,
{
}

} // verus!
