use hash_cycle::args::{DistanceFunction, HashFunction};
use hash_cycle::distance::{BitDiff, ByteDiff, CommonSubSeq, Distance};
use hash_cycle::hash::{find_cycle, find_cycle_within};

fn hash_times(h: HashFunction, seed: &[u8], n: usize) -> Vec<u8> {
    let mut v = seed.to_vec();
    for _ in 0..n {
        v = h.hash(&v);
    }
    v
}

#[test]
fn sha256_of_empty_input() {
    let d = HashFunction::Sha256.hash(&[]);
    assert_eq!(
        hex::encode(&d),
        "e3b0c44298fc1c149afbf4c8996fb92427ae41e4649b934ca495991b7852b855"
    );
}

#[test]
fn sha512_of_abc() {
    let d = HashFunction::Sha512.hash(b"abc");
    assert_eq!(
        hex::encode(&d),
        "ddaf35a193617abacc417349ae20413112e6fa4e89a97ea20a9eeee64b55d39a\
         2192992a274fc1a836ba3c23a3feebbd454d4423643ce80e2a9ac94fa54ca49f"
    );
}

#[test]
fn hash_is_deterministic_with_fixed_lengths() {
    for input in [&b""[..], &b"x"[..], &[0u8; 100][..]] {
        let a = HashFunction::Sha256.hash(input);
        let b = HashFunction::Sha256.hash(input);
        assert_eq!(a, b);
        assert_eq!(a.len(), 32);
        let c = HashFunction::Sha512.hash(input);
        let d = HashFunction::Sha512.hash(input);
        assert_eq!(c, d);
        assert_eq!(c.len(), 64);
    }
}

#[test]
fn zero_seed_byte_diff_full_threshold_stops_at_first() {
    let seed: Vec<u8> = vec![0x00, 0x00, 0x00, 0x00];
    let r = find_cycle::<ByteDiff>(HashFunction::Sha256, &seed, 32).unwrap();
    assert_eq!(r.iter_count, 1);
    assert!(r.distance <= 32);
    let slow = HashFunction::Sha256.hash(&seed);
    let fast = HashFunction::Sha256.hash(&slow);
    assert_eq!(r.slow, slow);
    assert_eq!(r.fast, fast);
    assert_eq!(r.distance, ByteDiff::distance(&slow, &fast));
}

#[test]
fn worst_case_threshold_stops_at_first() {
    let seed = b"any seed at all";
    let r = find_cycle::<BitDiff>(HashFunction::Sha256, seed, 256).unwrap();
    assert_eq!(r.iter_count, 1);
    let r = find_cycle::<BitDiff>(HashFunction::Sha512, seed, 512).unwrap();
    assert_eq!(r.iter_count, 1);
    let r = find_cycle::<CommonSubSeq>(HashFunction::Sha256, seed, 32).unwrap();
    assert_eq!(r.iter_count, 1);
    let r = find_cycle::<ByteDiff>(HashFunction::Sha512, seed, 64).unwrap();
    assert_eq!(r.iter_count, 1);
}

#[test]
fn search_follows_tortoise_and_hare() {
    let seed = b"chain";
    let h = HashFunction::Sha256;
    let threshold: usize = 29;
    let r = find_cycle::<ByteDiff>(h, seed, threshold).unwrap();
    let k = r.iter_count;
    assert!(k >= 1);
    assert_eq!(r.slow, hash_times(h, seed, k));
    assert_eq!(r.fast, hash_times(h, seed, 2 * k));
    assert!(r.distance <= threshold);
    for j in 1..k {
        let d = ByteDiff::distance(&hash_times(h, seed, j), &hash_times(h, seed, 2 * j));
        assert!(d > threshold);
    }
}

#[test]
fn search_is_repeatable() {
    let seed = b"repeat";
    let a = find_cycle::<BitDiff>(HashFunction::Sha512, seed, 230).unwrap();
    let b = find_cycle::<BitDiff>(HashFunction::Sha512, seed, 230).unwrap();
    assert_eq!(a.iter_count, b.iter_count);
    assert_eq!(a.distance, b.distance);
    assert_eq!(a.slow, b.slow);
    assert_eq!(a.fast, b.fast);
}

#[test]
fn limited_search_without_steps_gives_none() {
    assert!(find_cycle_within::<BitDiff>(HashFunction::Sha256, b"s", 256, 0).is_none());
}

#[test]
fn limited_search_gives_up() {
    assert!(find_cycle_within::<ByteDiff>(HashFunction::Sha256, b"s", 0, 5).is_none());
}

#[test]
fn limited_search_within_limit_finds() {
    let r = find_cycle_within::<ByteDiff>(HashFunction::Sha256, b"s", 32, 1).unwrap();
    assert_eq!(r.iter_count, 1);
}

#[test]
fn dispatch_matches_generic_search() {
    let seed = b"dispatch";
    let h = HashFunction::Sha256;
    let a = DistanceFunction::ByteDiff.exec(h, seed, 30).unwrap();
    let b = h.exec::<ByteDiff>(seed, 30).unwrap();
    assert_eq!(a.iter_count, b.iter_count);
    assert_eq!(a.slow, b.slow);
    let c = DistanceFunction::CommonSubSeq.exec(h, seed, 2).unwrap();
    assert!(c.distance <= 2);
    assert_eq!(c.distance, CommonSubSeq::distance(&c.slow, &c.fast));
    let d = DistanceFunction::BitDiff.exec(HashFunction::Sha512, seed, 512).unwrap();
    assert_eq!(d.iter_count, 1);
    assert_eq!(d.slow.len(), 64);
}
