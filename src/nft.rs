//! The placeholder catalogue of non-fungible tokens served by id.

use vstd::prelude::*;

verus! {

/// Non-fungible token (NFT).
#[derive(Clone, Debug)]
pub struct NFT {
    /// Unique identifier for the NFT.
    pub id: u64,
    /// Name of the NFT.
    pub name: String,
    /// Description of the NFT.
    pub description: String,
}

/// Index of the first token in `nfts` whose id is `id`.
pub fn find_nft_index(nfts: &Vec<NFT>, id: u64) -> (r: Option<usize>)
    ensures
        match r {
            Some(i) => i < nfts@.len() && nfts@[i as int].id == id && forall|j: int|
                0 <= j < i ==> nfts@[j].id != id,
            None => forall|j: int| 0 <= j < nfts@.len() ==> nfts@[j].id != id,
        },
{
    let mut i: usize = 0;
    while i < nfts.len()
        invariant
            i <= nfts@.len(),
            forall|j: int| 0 <= j < i ==> nfts@[j].id != id,
        decreases nfts.len() - i,
    {
        if nfts[i].id == id {
            return Some(i);
        }
        i = i + 1;
    }
    None
}

/// The catalogue: two dummy tokens with ids 1 and 2.
pub fn dummy_nfts() -> (r: Vec<NFT>)
    ensures
        r@.len() == 2,
        r@[0].id == 1,
        r@[0].name@ == "Dummy NFT 1"@,
        r@[0].description@ == "Description of Dummy NFT 1"@,
        r@[1].id == 2,
        r@[1].name@ == "Dummy NFT 2"@,
        r@[1].description@ == "Description of Dummy NFT 2"@,
{
    vec![
        NFT {
            id: 1,
            name: String::from_str("Dummy NFT 1"),
            description: String::from_str("Description of Dummy NFT 1"),
        },
        NFT {
            id: 2,
            name: String::from_str("Dummy NFT 2"),
            description: String::from_str("Description of Dummy NFT 2"),
        },
    ]
}

/// The catalogue's token with id `id`, if there is one.
pub fn nft_by_id(id: u64) -> (r: Option<NFT>)
    ensures
        r is Some <==> (id == 1 || id == 2),
        r matches Some(n) ==> n.id == id,
        id == 1 ==> (r matches Some(n) && n.name@ == "Dummy NFT 1"@ && n.description@
            == "Description of Dummy NFT 1"@),
        id == 2 ==> (r matches Some(n) && n.name@ == "Dummy NFT 2"@ && n.description@
            == "Description of Dummy NFT 2"@),
{
    let mut nfts = dummy_nfts();
    match find_nft_index(&nfts, id) {
        Some(i) => Some(nfts.remove(i)),
        None => None,
    }
}

} // verus!
