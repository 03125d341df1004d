use crate::args::HashFunction;
use crate::distance::Distance;
use std::time::{Duration, Instant};
use vstd::prelude::*;

verus! {

/// The SHA-256 digest of a byte sequence, as computed by the `sha2` crate.
pub uninterp spec fn sha256_of(data: Seq<u8>) -> Seq<u8>;

/// The SHA-512 digest of a byte sequence, as computed by the `sha2` crate.
pub uninterp spec fn sha512_of(data: Seq<u8>) -> Seq<u8>;

/// Relies on `sha2::Sha256` through `digest::Digest::digest`: a 32-byte digest
/// that depends on the input bytes alone.
#[verifier::external_body]
pub(crate) fn sha256(data: &[u8]) -> (r: Vec<u8>)
    ensures
        r@ == sha256_of(data@),
        r@.len() == 32,
{
    <sha2::Sha256 as digest::Digest>::digest(data).to_vec()
}

/// Relies on `sha2::Sha512` through `digest::Digest::digest`: a 64-byte digest
/// that depends on the input bytes alone.
#[verifier::external_body]
pub(crate) fn sha512(data: &[u8]) -> (r: Vec<u8>)
    ensures
        r@ == sha512_of(data@),
        r@.len() == 64,
{
    <sha2::Sha512 as digest::Digest>::digest(data).to_vec()
}

/// Makes `std::time::Instant` usable in signatures; nothing is known of its value.
#[verifier::external_type_specification]
#[verifier::external_body]
pub struct ExInstant(Instant);

/// Relies on `Instant::now` to read the clock; the reading only feeds the elapsed time.
pub assume_specification[ Instant::now ]() -> Instant;

/// Relies on `Instant::elapsed` to measure the time since a reading.
pub assume_specification[ Instant::elapsed ](start: &Instant) -> Duration;


/// The `n`-th element of the hash chain from `seed`: `seed` hashed `n` times.
pub open spec fn iterate(h: HashFunction, seed: Seq<u8>, n: nat) -> Seq<u8>
    decreases n,
{
    if n == 0 {
        seed
    } else {
        h.spec_hash(iterate(h, seed, (n - 1) as nat))
    }
}

/// At step `k` the slow pointer, hashed `k` times, and the fast pointer,
/// hashed `2 * k` times, score at most `threshold`.
pub open spec fn meets<D: Distance>(h: HashFunction, seed: Seq<u8>, threshold: nat, k: nat) -> bool {
    D::spec_distance(iterate(h, seed, k), iterate(h, seed, 2 * k)) <= threshold
}

/// Every chain element from the first to the `n`-th has the digest length.
pub open spec fn chain_lengths(h: HashFunction, seed: Seq<u8>, n: nat) -> bool {
    forall|j: nat| 1 <= j <= n ==> (#[trigger] iterate(h, seed, j)).len() == h.digest_len()
}

/// The outcome of a finished search.
pub struct FindCycleResult {
    /// The step at which the pointers met, counted from 1.
    pub iter_count: usize,
    /// The score of the two final digests.
    pub distance: usize,
    /// The slow pointer's final digest.
    pub slow: Vec<u8>,
    /// The fast pointer's final digest.
    pub fast: Vec<u8>,
    /// Wall-clock time the search took.
    pub elapsed: Duration,
}

/// `r` describes the first step at which the pointers meet.
pub open spec fn is_first_meeting<D: Distance>(
    h: HashFunction,
    seed: Seq<u8>,
    threshold: nat,
    r: FindCycleResult,
) -> bool {
    let k = r.iter_count as nat;
    &&& k >= 1
    &&& r.slow@ == iterate(h, seed, k)
    &&& r.fast@ == iterate(h, seed, 2 * k)
    &&& r.distance as nat == D::spec_distance(r.slow@, r.fast@)
    &&& r.distance <= threshold
    &&& forall|j: nat| 1 <= j < k ==> !#[trigger] meets::<D>(h, seed, threshold, j)
    &&& chain_lengths(h, seed, 2 * k)
}

/// What a search limited to `limit` steps returns: the first meeting if it
/// comes within the limit, and `None` exactly when no step up to the limit meets.
pub open spec fn search_outcome<D: Distance>(
    h: HashFunction,
    seed: Seq<u8>,
    threshold: nat,
    limit: nat,
    r: Option<FindCycleResult>,
) -> bool {
    match r {
        Some(res) => is_first_meeting::<D>(h, seed, threshold, res) && res.iter_count <= limit,
        None => {
            &&& forall|j: nat| 1 <= j <= limit ==> !#[trigger] meets::<D>(h, seed, threshold, j)
            &&& chain_lengths(h, seed, 2 * limit)
        },
    }
}

/// Tortoise/hare search that gives up after `max_iter` steps.
///
/// Starting from `slow = hash(seed)` and `fast = hash(slow)`, the slow pointer
/// advances one hash and the fast pointer two per step, until their score
/// under `D` is at most `threshold`.
pub fn find_cycle_within<D: Distance>(
    hash: HashFunction,
    seed: &[u8],
    threshold: usize,
    max_iter: usize,
) -> (r: Option<FindCycleResult>)
    ensures
        search_outcome::<D>(hash, seed@, threshold as nat, max_iter as nat, r),
{
    if max_iter == 0 {
        return None;
    }
    let start = Instant::now();
    let mut slow = hash.hash(seed);
    let mut fast = hash.hash(slow.as_slice());
    let mut iter_count: usize = 1;
    proof {
        assert(iterate(hash, seed@, 1) == hash.spec_hash(iterate(hash, seed@, 0)));
        assert(iterate(hash, seed@, 2) == hash.spec_hash(iterate(hash, seed@, 1)));
        assert forall|j: nat| 1 <= j <= 2 implies (#[trigger] iterate(hash, seed@, j)).len()
            == hash.digest_len() by {
            if j == 1 {
            } else {
                assert(j == 2);
            }
        }
    }
    loop
        invariant
            1 <= iter_count <= max_iter,
            slow@ == iterate(hash, seed@, iter_count as nat),
            fast@ == iterate(hash, seed@, 2 * iter_count as nat),
            forall|j: nat|
                1 <= j < iter_count ==> !#[trigger] meets::<D>(hash, seed@, threshold as nat, j),
            chain_lengths(hash, seed@, 2 * iter_count as nat),
        decreases max_iter - iter_count,
    {
        let ghost k = iter_count as nat;
        assert(slow@.len() == hash.digest_len() && fast@.len() == hash.digest_len()) by {
            assert(iterate(hash, seed@, k).len() == hash.digest_len());
            assert(iterate(hash, seed@, 2 * k).len() == hash.digest_len());
        }
        let distance = D::distance(slow.as_slice(), fast.as_slice());
        if distance <= threshold {
            let elapsed = start.elapsed();
            return Some(FindCycleResult { iter_count, distance, slow, fast, elapsed });
        }
        assert(!meets::<D>(hash, seed@, threshold as nat, k));
        if iter_count >= max_iter {
            return None;
        }
        iter_count = iter_count + 1;
        let next_slow = hash.hash(slow.as_slice());
        let middle = hash.hash(fast.as_slice());
        let next_fast = hash.hash(middle.as_slice());
        proof {
            assert(iterate(hash, seed@, k + 1) == hash.spec_hash(iterate(hash, seed@, k)));
            assert(iterate(hash, seed@, 2 * k + 1) == hash.spec_hash(iterate(hash, seed@, 2 * k)));
            assert(iterate(hash, seed@, 2 * k + 2) == hash.spec_hash(
                iterate(hash, seed@, 2 * k + 1),
            ));
            assert(2 * (k + 1) == 2 * k + 2);
            assert forall|j: nat| 1 <= j <= 2 * (k + 1) implies (#[trigger] iterate(
                hash,
                seed@,
                j,
            )).len() == hash.digest_len() by {
                if j <= 2 * k {
                    assert(chain_lengths(hash, seed@, 2 * k));
                } else if j == 2 * k + 1 {
                } else {
                    assert(j == 2 * k + 2);
                }
            }
        }
        slow = next_slow;
        fast = next_fast;
    }
}

/// Tortoise/hare search with no limit but the range of the step counter.
///
/// Returns `None` only if no step up to `usize::MAX` meets the threshold.
pub fn find_cycle<D: Distance>(hash: HashFunction, seed: &[u8], threshold: usize) -> (r: Option<
    FindCycleResult,
>)
    ensures
        search_outcome::<D>(hash, seed@, threshold as nat, usize::MAX as nat, r),
{
    find_cycle_within::<D>(hash, seed, threshold, usize::MAX)
}


/// With a threshold at or above the largest score two digests can have, every
/// search allowed at least one step stops at the first step.
pub proof fn lemma_large_threshold_stops_at_first<D: Distance>(
    h: HashFunction,
    seed: Seq<u8>,
    threshold: nat,
    limit: nat,
    r: Option<FindCycleResult>,
)
    requires
        search_outcome::<D>(h, seed, threshold, limit, r),
        limit >= 1,
        threshold >= D::spec_max_distance(h.digest_len()),
    ensures
        r.is_some(),
        r.unwrap().iter_count == 1,
{
    let first = iterate(h, seed, 1);
    let second = iterate(h, seed, 2);
    assert(chain_lengths(h, seed, 2)) by {
        match r {
            Some(res) => {
                assert(iterate(h, seed, 2).len() == h.digest_len());
                assert(iterate(h, seed, 1).len() == h.digest_len());
            },
            None => {
                assert(iterate(h, seed, 2).len() == h.digest_len());
                assert(iterate(h, seed, 1).len() == h.digest_len());
            },
        }
    }
    assert(first.len() == h.digest_len() && second.len() == h.digest_len());
    D::lemma_distance_bounded(first, second);
    assert(meets::<D>(h, seed, threshold, 1));
}

/// Two searches with the same seed, hash function, metric, threshold and
/// limit agree on whether they met and, if so, on the step, the score and both
/// digests; only the elapsed time may differ.
pub proof fn lemma_search_deterministic<D: Distance>(
    h: HashFunction,
    seed: Seq<u8>,
    threshold: nat,
    limit: nat,
    r1: Option<FindCycleResult>,
    r2: Option<FindCycleResult>,
)
    requires
        search_outcome::<D>(h, seed, threshold, limit, r1),
        search_outcome::<D>(h, seed, threshold, limit, r2),
    ensures
        r1.is_some() == r2.is_some(),
        r1.is_some() ==> {
            &&& r1.unwrap().iter_count == r2.unwrap().iter_count
            &&& r1.unwrap().distance == r2.unwrap().distance
            &&& r1.unwrap().slow@ == r2.unwrap().slow@
            &&& r1.unwrap().fast@ == r2.unwrap().fast@
        },
{
    match (r1, r2) {
        (Some(a), Some(b)) => {
            let ka = a.iter_count as nat;
            let kb = b.iter_count as nat;
            if ka < kb {
                assert(!meets::<D>(h, seed, threshold, ka));
            } else if kb < ka {
                assert(!meets::<D>(h, seed, threshold, kb));
            }
        },
        (Some(a), None) => {
            assert(!meets::<D>(h, seed, threshold, a.iter_count as nat));
        },
        (None, Some(b)) => {
            assert(!meets::<D>(h, seed, threshold, b.iter_count as nat));
        },
        (None, None) => {},
    }
}

} // verus!
