//! Derivation of a mint's metadata account address.

use crate::address::{on_curve, Address};
use solana_sdk::pubkey::Pubkey;
use vstd::prelude::*;

verus! {

/// What searching for a program-derived address of `program` from `seeds`
/// yields: the first address, trying the bump bytes from 255 down, whose
/// digest is off the curve, with that bump; `None` when no bump gives one.
pub uninterp spec fn program_address(seeds: Seq<Seq<u8>>, program: Seq<u8>) -> Option<(Seq<u8>, u8)>;

/// The seed that every metadata account address starts from: `"metadata"`.
pub open spec fn metadata_seed_bytes() -> Seq<u8> {
    seq![109u8, 101u8, 116u8, 97u8, 100u8, 97u8, 116u8, 97u8]
}

/// The bytes of the metadata program's address,
/// `metaqbxxUerdq28cj1RbAWkYQm3ybzjb6a8bt518x1s`.
pub open spec fn program_id_bytes() -> Seq<u8> {
    seq![
        11u8, 112u8, 101u8, 177u8, 227u8, 209u8, 124u8, 69u8, 56u8, 157u8, 82u8, 127u8, 107u8, 4u8,
        195u8, 205u8, 88u8, 184u8, 108u8, 115u8, 26u8, 160u8, 253u8, 181u8, 73u8, 182u8, 209u8,
        188u8, 3u8, 248u8, 41u8, 70u8,
    ]
}

/// The seeds of the metadata account of `mint`: the fixed seed, the program
/// id and the mint.
pub open spec fn metadata_seeds(mint: Seq<u8>) -> Seq<Seq<u8>> {
    seq![metadata_seed_bytes(), program_id_bytes(), mint]
}

/// The metadata account address of `mint`, if the search finds one.
pub open spec fn metadata_pda(mint: Seq<u8>) -> Option<Seq<u8>> {
    match program_address(metadata_seeds(mint), program_id_bytes()) {
        Some((a, _)) => Some(a),
        None => None,
    }
}

/// Relies on `Pubkey::try_find_program_address`: a function of the seeds and
/// the program alone, whose address, when there is one, comes from
/// `create_program_address`, which refuses every digest that is a curve point.
#[verifier::external_body]
fn try_find_program_address(seeds: &Vec<Vec<u8>>, program: &Address) -> (r: Option<(Address, u8)>)
    ensures
        match r {
            Some((a, bump)) => program_address(seeds.deep_view(), program@) == Some((a@, bump))
                && !on_curve(a@),
            None => program_address(seeds.deep_view(), program@) is None,
        },
{
    let refs: Vec<&[u8]> = seeds.iter().map(|s| s.as_slice()).collect();
    Pubkey::try_find_program_address(&refs, &Pubkey::new_from_array(program.bytes)).map(
        |(p, bump)| (Address { bytes: p.to_bytes() }, bump),
    )
}

/// The address of the metadata program.
pub fn program_id() -> (r: Address)
    ensures
        r@ == program_id_bytes(),
{
    let r = Address {
        bytes: [
            11, 112, 101, 177, 227, 209, 124, 69, 56, 157, 82, 127, 107, 4, 195, 205, 88, 184, 108,
            115, 26, 160, 253, 181, 73, 182, 209, 188, 3, 248, 41, 70,
        ],
    };
    assert(r@ =~= program_id_bytes());
    r
}

/// Computes the metadata account address of `mint`: the program-derived
/// address of the seeds `"metadata"`, the program id and the mint. The result
/// depends on the mint alone and is never a curve point; `None` only when no
/// bump byte gives an address off the curve.
pub fn get_metadata_pda(mint_account: Address) -> (r: Option<Address>)
    ensures
        match r {
            Some(a) => metadata_pda(mint_account@) == Some(a@) && !on_curve(a@),
            None => metadata_pda(mint_account@) is None,
        },
{
    let program = program_id();
    let seed: Vec<u8> = vec![109, 101, 116, 97, 100, 97, 116, 97];
    assert(seed@ =~= metadata_seed_bytes());
    let program_seed: Vec<u8> = vec![
        11, 112, 101, 177, 227, 209, 124, 69, 56, 157, 82, 127, 107, 4, 195, 205, 88, 184, 108,
        115, 26, 160, 253, 181, 73, 182, 209, 188, 3, 248, 41, 70,
    ];
    assert(program_seed@ =~= program_id_bytes());
    let mut mint_seed: Vec<u8> = Vec::with_capacity(32);
    let mut i: usize = 0;
    while i < 32
        invariant
            i <= 32,
            mint_account@.len() == 32,
            mint_seed@ =~= mint_account@.subrange(0, i as int),
        decreases 32 - i,
    {
        mint_seed.push(mint_account.bytes[i]);
        i = i + 1;
        assert(mint_seed@ =~= mint_account@.subrange(0, i as int));
    }
    assert(mint_seed@ =~= mint_account@);
    let seeds: Vec<Vec<u8>> = vec![seed, program_seed, mint_seed];
    assert(seeds@[0]@ == metadata_seed_bytes());
    assert(seeds.deep_view()[0] =~= metadata_seed_bytes());
    assert(seeds.deep_view()[1] =~= program_id_bytes());
    assert(seeds.deep_view()[2] =~= mint_account@);
    assert(seeds.deep_view() =~= metadata_seeds(mint_account@));
    match try_find_program_address(&seeds, &program) {
        Some((a, _)) => Some(a),
        None => None,
    }
}

/// Derivation is deterministic: the metadata account address is a function
/// of the mint's bytes, so equal mints always give the same result.
pub proof fn lemma_derivation_deterministic(m1: Address, m2: Address)
    requires
        m1@ == m2@,
    ensures
        metadata_pda(m1@) == metadata_pda(m2@),
{
}

} // verus!
