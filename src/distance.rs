use vstd::prelude::*;

verus! {

/// Number of set bits among the lowest `n` bits of `x`.
pub open spec fn bits_below(x: u8, n: nat) -> nat
    decreases n,
{
    if n == 0 {
        0
    } else {
        bits_below(x, (n - 1) as nat) + (if (x >> ((n - 1) as u8)) & 1u8 == 1u8 {
            1nat
        } else {
            0nat
        })
    }
}

/// Population count of a byte.
pub open spec fn popcount(x: u8) -> nat {
    bits_below(x, 8)
}

/// Sum over the first `n` positions of the popcount of `a[i] ^ b[i]`.
pub open spec fn bit_diff_upto(a: Seq<u8>, b: Seq<u8>, n: nat) -> nat
    decreases n,
{
    if n == 0 {
        0
    } else {
        bit_diff_upto(a, b, (n - 1) as nat) + popcount(a[n - 1] ^ b[n - 1])
    }
}

/// Bit-level Hamming distance of two equal-length sequences.
pub open spec fn bit_diff(a: Seq<u8>, b: Seq<u8>) -> nat {
    bit_diff_upto(a, b, a.len())
}

/// Number of positions below `n` where the two sequences differ.
pub open spec fn byte_diff_upto(a: Seq<u8>, b: Seq<u8>, n: nat) -> nat
    decreases n,
{
    if n == 0 {
        0
    } else {
        byte_diff_upto(a, b, (n - 1) as nat) + (if a[n - 1] != b[n - 1] {
            1nat
        } else {
            0nat
        })
    }
}

/// Byte-level Hamming distance of two equal-length sequences.
pub open spec fn byte_diff(a: Seq<u8>, b: Seq<u8>) -> nat {
    byte_diff_upto(a, b, a.len())
}

/// Length of the run of equal bytes starting at `a[i]` and `b[j]`.
pub open spec fn run_len(a: Seq<u8>, b: Seq<u8>, i: int, j: int) -> nat
    decreases a.len() - i,
{
    if 0 <= i < a.len() && 0 <= j < b.len() && a[i] == b[j] {
        1 + run_len(a, b, i + 1, j + 1)
    } else {
        0
    }
}

/// Longest run starting at `a[i]` and at one of `b[0..m]`.
pub open spec fn longest_run_at(a: Seq<u8>, b: Seq<u8>, i: int, m: nat) -> nat
    decreases m,
{
    if m == 0 {
        0
    } else {
        let prev = longest_run_at(a, b, i, (m - 1) as nat);
        let here = run_len(a, b, i, m - 1);
        if prev < here {
            here
        } else {
            prev
        }
    }
}

/// Longest run starting at one of `a[0..n]` and one of `b[0..b.len()]`.
pub open spec fn longest_run_upto(a: Seq<u8>, b: Seq<u8>, n: nat) -> nat
    decreases n,
{
    if n == 0 {
        0
    } else {
        let prev = longest_run_upto(a, b, (n - 1) as nat);
        let here = longest_run_at(a, b, n - 1, b.len());
        if prev < here {
            here
        } else {
            prev
        }
    }
}

/// Longest common contiguous run over all pairs of starting offsets.
pub open spec fn common_run(a: Seq<u8>, b: Seq<u8>) -> nat {
    longest_run_upto(a, b, a.len())
}

/// A closeness score between two digests of equal length.
pub trait Distance {
    /// The score, as a function of the two byte sequences.
    spec fn spec_distance(a: Seq<u8>, b: Seq<u8>) -> nat;

    /// The largest score two sequences of length `len` can have.
    spec fn spec_max_distance(len: nat) -> nat;

    /// No pair of equal-length sequences scores above the maximum.
    proof fn lemma_distance_bounded(a: Seq<u8>, b: Seq<u8>)
        requires
            a.len() == b.len(),
        ensures
            Self::spec_distance(a, b) <= Self::spec_max_distance(a.len()),
    ;

    fn distance(a: &[u8], b: &[u8]) -> (r: usize)
        requires
            a@.len() == b@.len(),
            8 * a@.len() <= usize::MAX,
        ensures
            r as nat == Self::spec_distance(a@, b@),
    ;
}


/// Bit-level Hamming distance: XOR each pair of bytes and count the set bits.
#[derive(Debug, Default)]
pub struct BitDiff {}

/// Byte-level Hamming distance: count the positions whose bytes differ.
#[derive(Debug, Default)]
pub struct ByteDiff {}

/// Longest common contiguous run of bytes over every pair of starting offsets.
///
/// Larger scores mean more similar sequences, unlike the two other metrics.
#[derive(Debug, Default)]
pub struct CommonSubSeq {}

/// Counts the set bits of a byte.
fn count_bits(x: u8) -> (r: u32)
    ensures
        r as nat == popcount(x),
{
    let mut count: u32 = 0;
    let mut k: u8 = 0;
    while k < 8
        invariant
            k <= 8,
            count as nat == bits_below(x, k as nat),
            count <= k,
        decreases 8 - k,
    {
        if (x >> k) & 1u8 == 1u8 {
            count = count + 1;
        }
        k = k + 1;
    }
    count
}

impl Distance for BitDiff {
    open spec fn spec_distance(a: Seq<u8>, b: Seq<u8>) -> nat {
        bit_diff(a, b)
    }

    open spec fn spec_max_distance(len: nat) -> nat {
        8 * len
    }

    proof fn lemma_distance_bounded(a: Seq<u8>, b: Seq<u8>) {
        lemma_bit_diff_upto_bounded(a, b, a.len());
    }

    fn distance(a: &[u8], b: &[u8]) -> (r: usize) {
        let mut total: usize = 0;
        let mut i: usize = 0;
        while i < a.len()
            invariant
                i <= a@.len(),
                a@.len() == b@.len(),
                8 * a@.len() <= usize::MAX,
                total as nat == bit_diff_upto(a@, b@, i as nat),
                total <= 8 * i,
            decreases a@.len() - i,
        {
            let bits = count_bits(a[i] ^ b[i]);
            proof {
                lemma_bits_below_bounded(a@[i as int] ^ b@[i as int], 8);
            }
            total = total + bits as usize;
            i = i + 1;
        }
        total
    }
}

impl Distance for ByteDiff {
    open spec fn spec_distance(a: Seq<u8>, b: Seq<u8>) -> nat {
        byte_diff(a, b)
    }

    open spec fn spec_max_distance(len: nat) -> nat {
        len
    }

    proof fn lemma_distance_bounded(a: Seq<u8>, b: Seq<u8>) {
        lemma_byte_diff_upto_bounded(a, b, a.len());
    }

    fn distance(a: &[u8], b: &[u8]) -> (r: usize) {
        let mut count: usize = 0;
        let mut i: usize = 0;
        while i < a.len()
            invariant
                i <= a@.len(),
                a@.len() == b@.len(),
                count as nat == byte_diff_upto(a@, b@, i as nat),
                count <= i,
            decreases a@.len() - i,
        {
            if a[i] != b[i] {
                count = count + 1;
            }
            i = i + 1;
        }
        count
    }
}

/// Length of the run of equal bytes starting at `a[i]` and `b[j]`.
fn run_length(a: &[u8], b: &[u8], i: usize, j: usize) -> (r: usize)
    requires
        i <= a@.len(),
        j <= b@.len(),
    ensures
        r as nat == run_len(a@, b@, i as int, j as int),
{
    let mut k: usize = 0;
    while k < a.len() - i && k < b.len() - j && a[i + k] == b[j + k]
        invariant
            i + k <= a@.len(),
            j + k <= b@.len(),
            run_len(a@, b@, i as int, j as int) == k + run_len(
                a@,
                b@,
                (i + k) as int,
                (j + k) as int,
            ),
        decreases a@.len() - (i + k),
    {
        k = k + 1;
    }
    k
}

impl Distance for CommonSubSeq {
    open spec fn spec_distance(a: Seq<u8>, b: Seq<u8>) -> nat {
        common_run(a, b)
    }

    open spec fn spec_max_distance(len: nat) -> nat {
        len
    }

    proof fn lemma_distance_bounded(a: Seq<u8>, b: Seq<u8>) {
        lemma_longest_run_upto_bounded(a, b, a.len());
    }

    fn distance(a: &[u8], b: &[u8]) -> (r: usize) {
        let mut max: usize = 0;
        let len = a.len();
        let mut i: usize = 0;
        while i < len
            invariant
                len == a@.len(),
                a@.len() == b@.len(),
                i <= len,
                max as nat == longest_run_upto(a@, b@, i as nat),
            decreases len - i,
        {
            let ghost before = longest_run_upto(a@, b@, i as nat);
            let mut j: usize = 0;
            while j < len
                invariant
                    len == a@.len(),
                    a@.len() == b@.len(),
                    i < len,
                    j <= len,
                    before == longest_run_upto(a@, b@, i as nat),
                    max as nat == (if before < longest_run_at(a@, b@, i as int, j as nat) {
                        longest_run_at(a@, b@, i as int, j as nat)
                    } else {
                        before
                    }),
                decreases len - j,
            {
                let size = run_length(a, b, i, j);
                if max < size {
                    max = size;
                }
                j = j + 1;
            }
            i = i + 1;
        }
        max
    }
}

/// At most `n` of the lowest `n` bits are set.
pub proof fn lemma_bits_below_bounded(x: u8, n: nat)
    ensures
        bits_below(x, n) <= n,
    decreases n,
{
    if n > 0 {
        lemma_bits_below_bounded(x, (n - 1) as nat);
    }
}

proof fn lemma_bit_diff_upto_bounded(a: Seq<u8>, b: Seq<u8>, n: nat)
    ensures
        bit_diff_upto(a, b, n) <= 8 * n,
    decreases n,
{
    if n > 0 {
        lemma_bit_diff_upto_bounded(a, b, (n - 1) as nat);
        lemma_bits_below_bounded(a[n - 1] ^ b[n - 1], 8);
    }
}

proof fn lemma_byte_diff_upto_bounded(a: Seq<u8>, b: Seq<u8>, n: nat)
    ensures
        byte_diff_upto(a, b, n) <= n,
    decreases n,
{
    if n > 0 {
        lemma_byte_diff_upto_bounded(a, b, (n - 1) as nat);
    }
}

proof fn lemma_run_len_bounded(a: Seq<u8>, b: Seq<u8>, i: int, j: int)
    ensures
        run_len(a, b, i, j) <= a.len(),
        0 <= i ==> run_len(a, b, i, j) <= a.len() - i || run_len(a, b, i, j) == 0,
    decreases a.len() - i,
{
    if 0 <= i < a.len() && 0 <= j < b.len() && a[i] == b[j] {
        lemma_run_len_bounded(a, b, i + 1, j + 1);
    }
}

proof fn lemma_longest_run_at_bounded(a: Seq<u8>, b: Seq<u8>, i: int, m: nat)
    ensures
        longest_run_at(a, b, i, m) <= a.len(),
    decreases m,
{
    if m > 0 {
        lemma_longest_run_at_bounded(a, b, i, (m - 1) as nat);
        lemma_run_len_bounded(a, b, i, m - 1);
    }
}

proof fn lemma_longest_run_upto_bounded(a: Seq<u8>, b: Seq<u8>, n: nat)
    ensures
        longest_run_upto(a, b, n) <= a.len(),
    decreases n,
{
    if n > 0 {
        lemma_longest_run_upto_bounded(a, b, (n - 1) as nat);
        lemma_longest_run_at_bounded(a, b, n - 1, b.len());
    }
}


proof fn lemma_bits_below_zero(n: nat)
    requires
        n <= 8,
    ensures
        bits_below(0u8, n) == 0,
    decreases n,
{
    if n > 0 {
        lemma_bits_below_zero((n - 1) as nat);
        let s = (n - 1) as u8;
        assert((0u8 >> s) & 1u8 == 0u8) by (bit_vector);
    }
}

proof fn lemma_bits_below_full(n: nat)
    requires
        n <= 8,
    ensures
        bits_below(0xffu8, n) == n,
    decreases n,
{
    if n > 0 {
        lemma_bits_below_full((n - 1) as nat);
        let s = (n - 1) as u8;
        assert(s < 8 ==> (0xffu8 >> s) & 1u8 == 1u8) by (bit_vector);
    }
}

proof fn lemma_bit_diff_upto_self(a: Seq<u8>, n: nat)
    requires
        n <= a.len(),
    ensures
        bit_diff_upto(a, a, n) == 0,
    decreases n,
{
    if n > 0 {
        lemma_bit_diff_upto_self(a, (n - 1) as nat);
        let x = a[n - 1];
        assert(x ^ x == 0u8) by (bit_vector);
        lemma_bits_below_zero(8);
    }
}

proof fn lemma_byte_diff_upto_self(a: Seq<u8>, n: nat)
    requires
        n <= a.len(),
    ensures
        byte_diff_upto(a, a, n) == 0,
    decreases n,
{
    if n > 0 {
        lemma_byte_diff_upto_self(a, (n - 1) as nat);
    }
}

/// A sequence is at distance zero from itself, bit by bit and byte by byte.
pub proof fn lemma_self_distance_zero(a: Seq<u8>)
    ensures
        bit_diff(a, a) == 0,
        byte_diff(a, a) == 0,
{
    lemma_bit_diff_upto_self(a, a.len());
    lemma_byte_diff_upto_self(a, a.len());
}

proof fn lemma_bit_diff_upto_complement(a: Seq<u8>, b: Seq<u8>, n: nat)
    requires
        n <= a.len(),
        a.len() == b.len(),
        forall|i: int| 0 <= i < a.len() ==> #[trigger] b[i] == !a[i],
    ensures
        bit_diff_upto(a, b, n) == 8 * n,
    decreases n,
{
    if n > 0 {
        lemma_bit_diff_upto_complement(a, b, (n - 1) as nat);
        let x = a[n - 1];
        assert(b[n - 1] == !x);
        assert(x ^ !x == 0xffu8) by (bit_vector);
        lemma_bits_below_full(8);
    }
}

/// The bit difference of two equal-length sequences lies in `[0, 8 * len]`,
/// and reaches `8 * len` when one is the bitwise complement of the other.
pub proof fn lemma_bit_diff_range(a: Seq<u8>, b: Seq<u8>)
    requires
        a.len() == b.len(),
    ensures
        0 <= bit_diff(a, b) <= 8 * a.len(),
        (forall|i: int| 0 <= i < a.len() ==> #[trigger] b[i] == !a[i]) ==> bit_diff(a, b) == 8
            * a.len(),
{
    lemma_bit_diff_upto_bounded(a, b, a.len());
    if forall|i: int| 0 <= i < a.len() ==> #[trigger] b[i] == !a[i] {
        lemma_bit_diff_upto_complement(a, b, a.len());
    }
}

proof fn lemma_byte_diff_upto_disjoint(a: Seq<u8>, b: Seq<u8>, n: nat)
    requires
        n <= a.len(),
        a.len() == b.len(),
        forall|i: int| 0 <= i < a.len() ==> #[trigger] a[i] != b[i],
    ensures
        byte_diff_upto(a, b, n) == n,
    decreases n,
{
    if n > 0 {
        lemma_byte_diff_upto_disjoint(a, b, (n - 1) as nat);
        assert(a[n - 1] != b[n - 1]);
    }
}

/// The byte difference of two equal-length sequences lies in `[0, len]`,
/// and reaches `len` when no position holds the same byte in both.
pub proof fn lemma_byte_diff_range(a: Seq<u8>, b: Seq<u8>)
    requires
        a.len() == b.len(),
    ensures
        0 <= byte_diff(a, b) <= a.len(),
        (forall|i: int| 0 <= i < a.len() ==> #[trigger] a[i] != b[i]) ==> byte_diff(a, b)
            == a.len(),
{
    lemma_byte_diff_upto_bounded(a, b, a.len());
    if forall|i: int| 0 <= i < a.len() ==> #[trigger] a[i] != b[i] {
        lemma_byte_diff_upto_disjoint(a, b, a.len());
    }
}

proof fn lemma_run_len_self(a: Seq<u8>, i: int)
    requires
        0 <= i <= a.len(),
    ensures
        run_len(a, a, i, i) == a.len() - i,
    decreases a.len() - i,
{
    if i < a.len() {
        lemma_run_len_self(a, i + 1);
    }
}

proof fn lemma_longest_run_at_covers(a: Seq<u8>, b: Seq<u8>, i: int, j: int, m: nat)
    requires
        0 <= j < m,
    ensures
        run_len(a, b, i, j) <= longest_run_at(a, b, i, m),
    decreases m,
{
    if j < m - 1 {
        lemma_longest_run_at_covers(a, b, i, j, (m - 1) as nat);
    }
}

proof fn lemma_longest_run_upto_covers(a: Seq<u8>, b: Seq<u8>, i: int, n: nat)
    requires
        0 <= i < n,
    ensures
        longest_run_at(a, b, i, b.len()) <= longest_run_upto(a, b, n),
    decreases n,
{
    if i < n - 1 {
        lemma_longest_run_upto_covers(a, b, i, (n - 1) as nat);
    }
}

/// A sequence's longest common run with itself is its whole length.
pub proof fn lemma_common_run_self(a: Seq<u8>)
    ensures
        common_run(a, a) == a.len(),
{
    lemma_longest_run_upto_bounded(a, a, a.len());
    if a.len() > 0 {
        lemma_run_len_self(a, 0);
        lemma_longest_run_at_covers(a, a, 0, 0, a.len());
        lemma_longest_run_upto_covers(a, a, 0, a.len());
    }
}

} // verus!
