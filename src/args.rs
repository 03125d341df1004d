use crate::distance::{BitDiff, ByteDiff, CommonSubSeq, Distance};
use crate::hash::{
    find_cycle, search_outcome, sha256, sha256_of, sha512, sha512_of, FindCycleResult,
};
use vstd::utf8::encode_utf8;
use vstd::prelude::*;

verus! {

/// The hash function that builds the chain.
#[derive(Debug, Clone, Copy, PartialEq, Eq)]
pub enum HashFunction {
    Sha256,
    Sha512,
}

impl HashFunction {
    /// Length in bytes of the digests this function produces.
    pub open spec fn digest_len(self) -> nat {
        match self {
            HashFunction::Sha256 => 32,
            HashFunction::Sha512 => 64,
        }
    }

    /// The digest of `data`.
    pub open spec fn spec_hash(self, data: Seq<u8>) -> Seq<u8> {
        match self {
            HashFunction::Sha256 => sha256_of(data),
            HashFunction::Sha512 => sha512_of(data),
        }
    }

    /// Hashes `data`: the result depends on the function and the bytes alone,
    /// and always has the function's digest length, also for empty input.
    pub fn hash(self, data: &[u8]) -> (r: Vec<u8>)
        ensures
            r@ == self.spec_hash(data@),
            r@.len() == self.digest_len(),
    {
        match self {
            HashFunction::Sha256 => sha256(data),
            HashFunction::Sha512 => sha512(data),
        }
    }

    /// Runs the cycle search with this hash function and the metric `D`.
    pub fn exec<D: Distance>(self, seed: &[u8], limit: usize) -> (r: Option<FindCycleResult>)
        ensures
            crate::hash::search_outcome::<D>(self, seed@, limit as nat, usize::MAX as nat, r),
    {
        find_cycle::<D>(self, seed, limit)
    }
}


/// The metric that decides when the two pointers are close enough.
#[derive(Debug, Clone, Copy, PartialEq, Eq)]
pub enum DistanceFunction {
    BitDiff,
    ByteDiff,
    CommonSubSeq,
}

impl DistanceFunction {
    /// The score of `a` and `b` under this metric.
    pub open spec fn spec_distance(self, a: Seq<u8>, b: Seq<u8>) -> nat {
        match self {
            DistanceFunction::BitDiff => BitDiff::spec_distance(a, b),
            DistanceFunction::ByteDiff => ByteDiff::spec_distance(a, b),
            DistanceFunction::CommonSubSeq => CommonSubSeq::spec_distance(a, b),
        }
    }

    /// `r` is what an unlimited search under this metric returns.
    pub open spec fn outcome(
        self,
        hash: HashFunction,
        seed: Seq<u8>,
        threshold: nat,
        r: Option<FindCycleResult>,
    ) -> bool {
        let limit = usize::MAX as nat;
        match self {
            DistanceFunction::BitDiff => search_outcome::<BitDiff>(hash, seed, threshold, limit, r),
            DistanceFunction::ByteDiff => search_outcome::<ByteDiff>(
                hash,
                seed,
                threshold,
                limit,
                r,
            ),
            DistanceFunction::CommonSubSeq => search_outcome::<CommonSubSeq>(
                hash,
                seed,
                threshold,
                limit,
                r,
            ),
        }
    }

    /// Runs the cycle search with this metric and the hash function `hash`.
    pub fn exec(self, hash: HashFunction, seed: &[u8], threshold: usize) -> (r: Option<
        FindCycleResult,
    >)
        ensures
            self.outcome(hash, seed@, threshold as nat, r),
    {
        match self {
            DistanceFunction::BitDiff => hash.exec::<BitDiff>(seed, threshold),
            DistanceFunction::ByteDiff => hash.exec::<ByteDiff>(seed, threshold),
            DistanceFunction::CommonSubSeq => hash.exec::<CommonSubSeq>(seed, threshold),
        }
    }
}

/// Why a hex-encoded seed could not be decoded.
#[derive(Debug, Clone, Copy, PartialEq, Eq)]
pub enum HexError {
    /// The byte at `index` is not a hex digit.
    InvalidHexCharacter { c: char, index: usize },
    /// The text has an odd number of digits.
    OddLength,
    /// The output buffer had the wrong size; decoding into a vector never reports it.
    InvalidStringLength,
}

/// `c` is an ASCII hex digit, in either case.
pub open spec fn is_hex_digit(c: u8) -> bool {
    (0x30 <= c <= 0x39) || (0x61 <= c <= 0x66) || (0x41 <= c <= 0x46)
}

/// The value of the hex digit `c`.
pub open spec fn hex_value(c: u8) -> int {
    if 0x30 <= c <= 0x39 {
        c - 0x30
    } else if 0x61 <= c <= 0x66 {
        c - 0x61 + 10
    } else {
        c - 0x41 + 10
    }
}

/// `i` is the first position of `d` that does not hold a hex digit.
pub open spec fn is_first_non_hex(d: Seq<u8>, i: int) -> bool {
    &&& 0 <= i < d.len()
    &&& !is_hex_digit(d[i])
    &&& forall|k: int| 0 <= k < i ==> is_hex_digit(#[trigger] d[k])
}

/// The bytes that the hex text `d` stands for, two digits per byte, high digit first.
pub open spec fn hex_bytes(d: Seq<u8>) -> Seq<u8> {
    Seq::new(d.len() / 2, |i: int| (hex_value(d[2 * i]) * 16 + hex_value(d[2 * i + 1])) as u8)
}

/// The result of decoding the hex text `d`: an odd length is reported first,
/// then the first byte that is not a hex digit.
pub open spec fn hex_decode(d: Seq<u8>) -> Result<Seq<u8>, HexError> {
    if d.len() % 2 != 0 {
        Err(HexError::OddLength)
    } else if exists|i: int| is_first_non_hex(d, i) {
        let i = choose|i: int| is_first_non_hex(d, i);
        Err(HexError::InvalidHexCharacter { c: d[i] as char, index: i as usize })
    } else {
        Ok(hex_bytes(d))
    }
}

/// Relies on `hex::decode`: odd length first, then the first non-hex byte,
/// else one byte per pair of digits.
#[verifier::external_body]
fn decode_hex(d: &[u8]) -> (r: Result<Vec<u8>, HexError>)
    ensures
        match r {
            Ok(v) => hex_decode(d@) == Ok::<Seq<u8>, HexError>(v@),
            Err(e) => hex_decode(d@) == Err::<Seq<u8>, HexError>(e),
        },
{
    match hex::decode(d) {
        Ok(v) => Ok(v),
        Err(hex::FromHexError::InvalidHexCharacter { c, index }) => Err(
            HexError::InvalidHexCharacter { c, index },
        ),
        Err(hex::FromHexError::OddLength) => Err(HexError::OddLength),
        Err(hex::FromHexError::InvalidStringLength) => Err(HexError::InvalidStringLength),
    }
}

/// Relies on `rand::random::<u8>`: any byte, drawn from the thread-local generator.
#[verifier::external_body]
fn random_byte() -> (r: u8) {
    rand::random::<u8>()
}

/// Length of a random seed when none is given.
pub const DEFAULT_RANDOM_SEED_LEN: usize = 32;

/// What a search run needs: the two strategies, the threshold, and where the seed comes from.
pub struct Args {
    /// Hash function to use.
    pub digest: HashFunction,
    /// Distance function to use.
    pub distance: DistanceFunction,
    /// Largest score at which the search stops; 0 asks for equality under the metric.
    pub threshold: usize,
    /// Seed text, UTF-8 by default, hex when `hex` is set; random when absent.
    pub seed: Option<String>,
    /// Length of the random seed; no effect when a seed is given.
    pub random_size: Option<usize>,
    /// The seed text is hex-encoded.
    pub hex: bool,
}

impl Args {
    /// Length of the random seed used when no seed is given.
    pub open spec fn random_len(&self) -> nat {
        match self.random_size {
            Some(n) => n as nat,
            None => DEFAULT_RANDOM_SEED_LEN as nat,
        }
    }

    /// The seed bytes that the given seed text stands for.
    pub open spec fn given_seed(&self) -> Result<Seq<u8>, HexError>
        recommends
            self.seed.is_some(),
    {
        let text = self.seed.unwrap();
        if self.hex {
            hex_decode(encode_utf8(text@))
        } else {
            Ok(encode_utf8(text@))
        }
    }

    /// Resolves the seed bytes: the text's UTF-8 bytes, or the bytes its hex
    /// digits stand for when `hex` is set, or random bytes when no text is given.
    pub fn resolve_seed(&self) -> (r: Result<Vec<u8>, HexError>)
        ensures
            self.seed.is_some() ==> match r {
                Ok(v) => self.given_seed() == Ok::<Seq<u8>, HexError>(v@),
                Err(e) => self.given_seed() == Err::<Seq<u8>, HexError>(e),
            },
            self.seed.is_none() ==> r.is_ok() && r.unwrap()@.len() == self.random_len(),
    {
        match &self.seed {
            Some(text) => {
                let bytes = text.as_str().as_bytes();
                if self.hex {
                    decode_hex(bytes)
                } else {
                    Ok(vstd::slice::slice_to_vec(bytes))
                }
            },
            None => {
                let len = match self.random_size {
                    Some(n) => n,
                    None => DEFAULT_RANDOM_SEED_LEN,
                };
                Ok(Self::random_seed(len))
            },
        }
    }

    /// Resolves the seed and runs the search; a malformed hex seed is
    /// reported before any hashing.
    pub fn execute(self) -> (r: Result<Option<FindCycleResult>, HexError>)
        ensures
            self.seed.is_some() ==> match self.given_seed() {
                Ok(bytes) => r.is_ok() && self.distance.outcome(
                    self.digest,
                    bytes,
                    self.threshold as nat,
                    r.unwrap(),
                ),
                Err(e) => r == Err::<Option<FindCycleResult>, HexError>(e),
            },
            self.seed.is_none() ==> r.is_ok() && exists|bytes: Seq<u8>|
                bytes.len() == self.random_len() && self.distance.outcome(
                    self.digest,
                    bytes,
                    self.threshold as nat,
                    r.unwrap(),
                ),
    {
        let seed = match self.resolve_seed() {
            Ok(seed) => seed,
            Err(e) => return Err(e),
        };
        let result = self.distance.exec(self.digest, seed.as_slice(), self.threshold);
        Ok(result)
    }

    /// `len` random bytes.
    fn random_seed(len: usize) -> (r: Vec<u8>)
        ensures
            r@.len() == len,
    {
        let mut seed: Vec<u8> = Vec::with_capacity(len);
        let mut i: usize = 0;
        while i < len
            invariant
                i <= len,
                seed@.len() == i,
            decreases len - i,
        {
            seed.push(random_byte());
            i = i + 1;
        }
        seed
    }
}

} // verus!
