//! Resolution of token metadata: derivation of the metadata account address
//! of a mint, decoding of the account's bytes, and the resolution pipeline
//! that ties them together around one remote fetch.

pub mod address;
pub mod layout;
pub mod nft;
pub mod pda;
pub mod resolve;
