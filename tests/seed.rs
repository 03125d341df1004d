use hash_cycle::args::{Args, DistanceFunction, HashFunction, HexError};
use hash_cycle::distance::{ByteDiff, Distance};

fn args(seed: Option<&str>, hex: bool, random_size: Option<usize>) -> Args {
    Args {
        digest: HashFunction::Sha256,
        distance: DistanceFunction::ByteDiff,
        threshold: 32,
        seed: seed.map(|s| s.to_string()),
        random_size,
        hex,
    }
}

#[test]
fn hex_seed_is_decoded() {
    let seed = args(Some("deadbeef"), true, None).resolve_seed().unwrap();
    assert_eq!(seed, vec![0xde, 0xad, 0xbe, 0xef]);
}

#[test]
fn upper_case_hex_seed_is_decoded() {
    let seed = args(Some("0A1b"), true, None).resolve_seed().unwrap();
    assert_eq!(seed, vec![0x0a, 0x1b]);
}

#[test]
fn odd_hex_seed_is_rejected() {
    assert_eq!(args(Some("xyz"), true, None).resolve_seed(), Err(HexError::OddLength));
    assert!(matches!(args(Some("xyz"), true, None).execute(), Err(HexError::OddLength)));
}

#[test]
fn invalid_hex_character_is_reported() {
    assert_eq!(
        args(Some("0g12"), true, None).resolve_seed(),
        Err(HexError::InvalidHexCharacter { c: 'g', index: 1 })
    );
    assert!(matches!(
        args(Some("xz"), true, None).execute(),
        Err(HexError::InvalidHexCharacter { c: 'x', index: 0 })
    ));
}

#[test]
fn text_seed_is_utf8_bytes() {
    let seed = args(Some("deadbeef"), false, None).resolve_seed().unwrap();
    assert_eq!(seed, b"deadbeef".to_vec());
    let seed = args(Some("é"), false, None).resolve_seed().unwrap();
    assert_eq!(seed, vec![0xc3, 0xa9]);
}

#[test]
fn random_seed_has_requested_length() {
    assert_eq!(args(None, false, None).resolve_seed().unwrap().len(), 32);
    assert_eq!(args(None, true, Some(5)).resolve_seed().unwrap().len(), 5);
    assert_eq!(args(None, false, Some(0)).resolve_seed().unwrap().len(), 0);
}

#[test]
fn execute_hashes_the_decoded_seed() {
    let r = args(Some("deadbeef"), true, None).execute().unwrap().unwrap();
    let slow = HashFunction::Sha256.hash(&[0xde, 0xad, 0xbe, 0xef]);
    let fast = HashFunction::Sha256.hash(&slow);
    assert_eq!(r.iter_count, 1);
    assert_eq!(r.slow, slow);
    assert_eq!(r.fast, fast);
    assert_eq!(r.distance, ByteDiff::distance(&slow, &fast));
}

#[test]
fn execute_with_random_seed_stops_at_first() {
    let r = args(None, false, Some(8)).execute().unwrap().unwrap();
    assert_eq!(r.iter_count, 1);
    assert_eq!(r.slow.len(), 32);
}
