use nft_metadata::address::Address;
use nft_metadata::layout::decode_record;
use nft_metadata::nft::{dummy_nfts, find_nft_index, nft_by_id};
use nft_metadata::pda::{get_metadata_pda, program_id};
use nft_metadata::resolve::{
    complete_resolution, decode_metadata, metadata_address, strip_padding, text_field,
    ResolutionError,
};

const MINT_TEXT: &str = "US517G5965aydkZ46HS38QLi7UQiSojurfbQfKCELFx";
const CREATOR_TEXT: &str = "4wBqpZM9xaSheZzJSMawUKKwhdpChKbZ5eu5ky4Vigw";

fn padded(text: &str, width: usize) -> Vec<u8> {
    let mut v = text.as_bytes().to_vec();
    while v.len() < width {
        v.push(0);
    }
    v
}

fn push_string(out: &mut Vec<u8>, b: &[u8]) {
    out.extend_from_slice(&(b.len() as u32).to_le_bytes());
    out.extend_from_slice(b);
}

fn creator_bytes() -> [u8; 32] {
    let mut a = [0u8; 32];
    for (i, x) in a.iter_mut().enumerate() {
        *x = (i + 1) as u8;
    }
    a
}

/// An account holding the dummy token, padded as accounts are.
fn dummy_account(creators: Option<&[([u8; 32], u8, u8)]>) -> Vec<u8> {
    let mut out = vec![4u8];
    out.extend_from_slice(&[9u8; 32]);
    out.extend_from_slice(&[7u8; 32]);
    push_string(&mut out, &padded("Dummy", 32));
    push_string(&mut out, &padded("DUM", 10));
    push_string(&mut out, &padded("https://example.com/meta.json", 200));
    out.extend_from_slice(&500u16.to_le_bytes());
    match creators {
        None => out.push(0),
        Some(cs) => {
            out.push(1);
            out.extend_from_slice(&(cs.len() as u32).to_le_bytes());
            for (a, verified, share) in cs {
                out.extend_from_slice(a);
                out.push(*verified);
                out.push(*share);
            }
        }
    }
    out.push(1);
    out.push(1);
    out.extend_from_slice(&[0u8; 40]);
    out
}

#[test]
fn program_id_has_its_canonical_text() {
    assert_eq!(program_id().to_text(), "metaqbxxUerdq28cj1RbAWkYQm3ybzjb6a8bt518x1s");
}

#[test]
fn address_parses_and_prints_back() {
    let a = Address::parse(MINT_TEXT).unwrap();
    assert_eq!(a.bytes, [7u8; 32]);
    assert_eq!(a.to_text(), MINT_TEXT);
    let c = Address::parse(CREATOR_TEXT).unwrap();
    assert_eq!(c.bytes, creator_bytes());
}

#[test]
fn short_mint_is_invalid() {
    // base-58 text of ten bytes
    assert!(Address::parse("4HUtbHhN2TkpR").is_none());
    assert_eq!(metadata_address("4HUtbHhN2TkpR"), Err(ResolutionError::InvalidMint));
}

#[test]
fn malformed_mint_is_invalid() {
    assert_eq!(metadata_address("not base58 0OIl"), Err(ResolutionError::InvalidMint));
    assert_eq!(metadata_address(""), Err(ResolutionError::InvalidMint));
    let long = "1".repeat(45);
    assert_eq!(metadata_address(&long), Err(ResolutionError::InvalidMint));
}

#[test]
fn derivation_is_deterministic() {
    let mint = Address::parse(MINT_TEXT).unwrap();
    let a = get_metadata_pda(mint).unwrap();
    let b = get_metadata_pda(mint).unwrap();
    assert_eq!(a, b);
    assert_ne!(a, mint);
    assert_ne!(a, program_id());
    assert_eq!(metadata_address(MINT_TEXT), Ok(a));
}

#[test]
fn derivation_differs_between_mints() {
    let a = get_metadata_pda(Address::parse(MINT_TEXT).unwrap()).unwrap();
    let b = get_metadata_pda(Address::parse(CREATOR_TEXT).unwrap()).unwrap();
    assert_ne!(a, b);
}

#[test]
fn derived_address_is_off_curve() {
    for text in [MINT_TEXT, CREATOR_TEXT] {
        let pda = get_metadata_pda(Address::parse(text).unwrap()).unwrap();
        assert!(!pda.is_on_curve());
    }
}

#[test]
fn base_point_is_on_curve() {
    let mut bytes = [0x66u8; 32];
    bytes[0] = 0x58;
    assert!(Address { bytes }.is_on_curve());
}

#[test]
fn end_to_end_dummy_token() {
    let cs = [(creator_bytes(), 1u8, 100u8)];
    let data = dummy_account(Some(&cs));
    assert!(metadata_address(MINT_TEXT).is_ok());
    let t = complete_resolution(Ok(data)).unwrap();
    assert_eq!(t.name, "Dummy");
    assert_eq!(t.symbol, "DUM");
    assert_eq!(t.uri, "https://example.com/meta.json");
    assert_eq!(t.seller_fee_basis_points, 500);
    assert_eq!(t.creators.len(), 1);
    assert_eq!(t.creators[0].share, 100);
    assert!(t.creators[0].verified);
    assert_eq!(t.creators[0].address, CREATOR_TEXT);
}

#[test]
fn no_creator_list_gives_no_creators() {
    let t = decode_metadata(&dummy_account(None)).unwrap();
    assert_eq!(t.name, "Dummy");
    assert!(t.creators.is_empty());
}

#[test]
fn record_keeps_raw_fields() {
    let cs = [(creator_bytes(), 0u8, 40u8), ([3u8; 32], 1u8, 60u8)];
    let m = decode_record(&dummy_account(Some(&cs))).unwrap();
    assert_eq!(m.key, 4);
    assert_eq!(m.update_authority.bytes, [9u8; 32]);
    assert_eq!(m.mint.bytes, [7u8; 32]);
    assert_eq!(m.name, padded("Dummy", 32));
    assert_eq!(m.seller_fee_basis_points, 500);
    let creators = m.creators.unwrap();
    assert_eq!(creators.len(), 2);
    assert!(!creators[0].verified);
    assert_eq!(creators[1].address.bytes, [3u8; 32]);
    assert_eq!(creators[1].share, 60);
    assert!(m.primary_sale_happened);
    assert!(m.is_mutable);
}

#[test]
fn trailing_bytes_are_ignored() {
    let mut data = dummy_account(None);
    data.extend_from_slice(&[0xff; 100]);
    assert_eq!(decode_metadata(&data).unwrap().uri, "https://example.com/meta.json");
}

#[test]
fn short_input_fails_to_decode() {
    assert_eq!(decode_metadata(&[]).unwrap_err(), ResolutionError::DecodeFailed);
    assert_eq!(decode_metadata(&[0u8; 68]).unwrap_err(), ResolutionError::DecodeFailed);
    let data = dummy_account(None);
    for len in [69, 100, data.len() - 41] {
        assert_eq!(decode_metadata(&data[..len]).unwrap_err(), ResolutionError::DecodeFailed);
    }
}

#[test]
fn overlong_string_fails_to_decode() {
    let mut data = dummy_account(None);
    data[65..69].copy_from_slice(&10_000u32.to_le_bytes());
    assert_eq!(decode_metadata(&data).unwrap_err(), ResolutionError::DecodeFailed);
    let mut data = dummy_account(None);
    data[65..69].copy_from_slice(&u32::MAX.to_le_bytes());
    assert_eq!(decode_metadata(&data).unwrap_err(), ResolutionError::DecodeFailed);
}

#[test]
fn overlong_creator_list_fails_to_decode() {
    let cs = [(creator_bytes(), 1u8, 100u8)];
    let mut data = dummy_account(Some(&cs));
    let at = 1 + 64 + 36 + 14 + 204 + 2 + 1;
    data[at..at + 4].copy_from_slice(&1_000u32.to_le_bytes());
    assert_eq!(decode_metadata(&data).unwrap_err(), ResolutionError::DecodeFailed);
}

#[test]
fn bad_flag_fails_to_decode() {
    let cs = [(creator_bytes(), 2u8, 100u8)];
    assert_eq!(
        decode_metadata(&dummy_account(Some(&cs))).unwrap_err(),
        ResolutionError::DecodeFailed
    );
}

#[test]
fn invalid_utf8_fails_to_decode() {
    let mut data = dummy_account(None);
    data[69] = 0xff;
    assert_eq!(decode_metadata(&data).unwrap_err(), ResolutionError::DecodeFailed);
}

#[test]
fn transport_error_is_fetch_failed() {
    let r = complete_resolution(Err("connection refused".to_string()));
    assert_eq!(r.unwrap_err(), ResolutionError::FetchFailed("connection refused".to_string()));
}

#[test]
fn padding_is_stripped_only_at_the_end() {
    assert_eq!(strip_padding(&vec![0, 65, 0, 66, 0, 0]), vec![0, 65, 0, 66]);
    assert_eq!(strip_padding(&vec![0, 0]), Vec::<u8>::new());
    assert_eq!(text_field(&vec![104, 105, 0, 0]), Some("hi".to_string()));
    assert_eq!(text_field(&vec![0xc3, 0xa9, 0]), Some("\u{e9}".to_string()));
    assert_eq!(text_field(&vec![0xc3, 0]), None);
}

#[test]
fn catalogue_lookup() {
    let nfts = dummy_nfts();
    assert_eq!(find_nft_index(&nfts, 2), Some(1));
    assert_eq!(find_nft_index(&nfts, 3), None);
    let n = nft_by_id(1).unwrap();
    assert_eq!(n.id, 1);
    assert_eq!(n.name, "Dummy NFT 1");
    assert_eq!(n.description, "Description of Dummy NFT 1");
    assert!(nft_by_id(0).is_none());
}

#[test]
fn errors_map_to_status_codes() {
    assert_eq!(ResolutionError::InvalidMint.status_code(), 400);
    assert_eq!(ResolutionError::NoMetadataAccount.status_code(), 404);
    assert_eq!(ResolutionError::FetchFailed("timeout".to_string()).status_code(), 502);
    assert_eq!(ResolutionError::DecodeFailed.status_code(), 500);
}
