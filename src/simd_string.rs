//! Zero-terminated string and byte-scan primitives, each in a scalar form and
//! in a 16-byte block form, selected per call from the capability registry.
//!
//! The block forms mirror the vector strategy: compare a whole 16-byte lane
//! group, reduce it to a 16-bit match mask, and locate the first set bit. Each
//! is proved equal to the scalar semantics on every input.

use vstd::prelude::*;
use crate::cpu_features::FeatureRegistry;

verus! {

/// Lanes processed per block by the vector strategies.
pub const BLOCK: usize = 16;

/// Index of the first `b` in `s`, or `s.len()` when there is none.
pub open spec fn index_of(s: Seq<u8>, b: u8) -> int
    decreases s.len(),
{
    if s.len() == 0 {
        0
    } else if s[0] == b {
        0
    } else {
        1 + index_of(s.drop_first(), b)
    }
}

/// Length of the zero-terminated string held in `s` (all of `s` when no
/// terminator occurs).
pub open spec fn c_len(s: Seq<u8>) -> int {
    index_of(s, 0)
}

/// Number of occurrences of `b` in `s`.
pub open spec fn count_of(s: Seq<u8>, b: u8) -> nat
    decreases s.len(),
{
    if s.len() == 0 {
        0
    } else {
        count_of(s.drop_last(), b) + if s.last() == b {
            1nat
        } else {
            0nat
        }
    }
}

/// Lexicographic order over unsigned bytes, a proper prefix sorting first:
/// -1, 0 or 1.
pub open spec fn lex_cmp(a: Seq<u8>, b: Seq<u8>) -> int
    decreases a.len(),
{
    if a.len() == 0 && b.len() == 0 {
        0
    } else if a.len() == 0 {
        -1
    } else if b.len() == 0 {
        1
    } else if a[0] < b[0] {
        -1
    } else if a[0] > b[0] {
        1
    } else {
        lex_cmp(a.drop_first(), b.drop_first())
    }
}

/// `strcmp` over the zero-terminated strings held in `a` and `b`.
pub open spec fn c_strcmp(a: Seq<u8>, b: Seq<u8>) -> int {
    lex_cmp(a.take(c_len(a)), b.take(c_len(b)))
}

/// Position of the first `b` in `s`, if any.
pub open spec fn spec_find(s: Seq<u8>, b: u8) -> Option<usize> {
    if index_of(s, b) < s.len() {
        Some(index_of(s, b) as usize)
    } else {
        None
    }
}

pub open spec fn no_match(s: Seq<u8>, lo: int, hi: int, b: u8) -> bool {
    forall|i: int| lo <= i < hi ==> s[i] != b
}

pub proof fn lemma_index_of_bounds(s: Seq<u8>, b: u8)
    ensures
        0 <= index_of(s, b) <= s.len(),
        no_match(s, 0, index_of(s, b), b),
        index_of(s, b) < s.len() ==> s[index_of(s, b)] == b,
    decreases s.len(),
{
    if s.len() > 0 && s[0] != b {
        lemma_index_of_bounds(s.drop_first(), b);
        assert forall|i: int| 0 <= i < index_of(s, b) implies s[i] != b by {
            if i > 0 {
                assert(s[i] == s.drop_first()[i - 1]);
            }
        }
    }
}

/// The first-match position is characterised by: no match before it, and a
/// match at it unless it is the end.
pub proof fn lemma_index_of_unique(s: Seq<u8>, b: u8, n: int)
    requires
        0 <= n <= s.len(),
        no_match(s, 0, n, b),
        n < s.len() ==> s[n] == b,
    ensures
        index_of(s, b) == n,
    decreases s.len(),
{
    if s.len() > 0 && n > 0 {
        assert(s[0] != b);
        assert forall|i: int| 0 <= i < n - 1 implies s.drop_first()[i] != b by {
            assert(s.drop_first()[i] == s[i + 1]);
        }
        lemma_index_of_unique(s.drop_first(), b, n - 1);
    }
}

pub proof fn lemma_count_of_bound(s: Seq<u8>, b: u8)
    ensures
        count_of(s, b) <= s.len(),
    decreases s.len(),
{
    if s.len() > 0 {
        lemma_count_of_bound(s.drop_last(), b);
    }
}

proof fn lemma_count_step(s: Seq<u8>, b: u8, i: int)
    requires
        0 <= i < s.len(),
    ensures
        count_of(s.take(i + 1), b) == count_of(s.take(i), b) + if s[i] == b {
            1nat
        } else {
            0nat
        },
{
    assert(s.take(i + 1).drop_last() =~= s.take(i));
}

/// A common prefix of `i` bytes does not change the order.
proof fn lemma_lex_skip(a: Seq<u8>, b: Seq<u8>, i: int)
    requires
        0 <= i <= a.len(),
        i <= b.len(),
        forall|j: int| 0 <= j < i ==> a[j] == b[j],
    ensures
        lex_cmp(a, b) == lex_cmp(a.skip(i), b.skip(i)),
    decreases i,
{
    if i > 0 {
        assert forall|j: int| 0 <= j < i - 1 implies a.drop_first()[j] == b.drop_first()[j] by {
            assert(a[j + 1] == b[j + 1]);
        }
        lemma_lex_skip(a.drop_first(), b.drop_first(), i - 1);
        assert(a.drop_first().skip(i - 1) =~= a.skip(i));
        assert(b.drop_first().skip(i - 1) =~= b.skip(i));
    } else {
        assert(a.skip(0) =~= a);
        assert(b.skip(0) =~= b);
    }
}

proof fn lemma_mask_set(m: u16, j: u16, k: u16)
    requires
        j < 16,
        k < 16,
    ensures
        ((m | (1u16 << j)) >> k) & 1u16 == if k == j {
            1u16
        } else {
            (m >> k) & 1u16
        },
{
    assert(((m | (1u16 << j)) >> k) & 1u16 == if k == j {
        1u16
    } else {
        (m >> k) & 1u16
    }) by (bit_vector)
        requires
            j < 16,
            k < 16,
    ;
}

proof fn lemma_mask_empty(k: u16)
    requires
        k < 16,
    ensures
        (0u16 >> k) & 1u16 == 0u16,
{
    assert((0u16 >> k) & 1u16 == 0u16) by (bit_vector);
}

/// Lane mask of a 16-byte group: bit `k` is set exactly when byte
/// `offset + k` equals `needle` (the portable form of a byte-wise compare
/// followed by a sign-bit gather).
fn lane_eq_mask(s: &[u8], offset: usize, needle: u8) -> (m: u16)
    requires
        offset + 16 <= s@.len(),
    ensures
        forall|k: u16|
            k < 16 ==> ((#[trigger] ((m >> k) & 1u16) == 1u16) <==> s@[offset + k] == needle),
{
    let n = s.len();
    let mut m: u16 = 0;
    let mut j: u16 = 0;
    proof {
        assert forall|k: u16| 0 <= k < 16 implies #[trigger] ((m >> k) & 1u16) == 0u16 by {
            lemma_mask_empty(k);
        }
    }
    while j < 16
        invariant
            j <= 16,
            offset + 16 <= s@.len(),
            n == s@.len(),
            forall|k: u16|
                k < j ==> ((#[trigger] ((m >> k) & 1u16) == 1u16) <==> s@[offset + k] == needle),
            forall|k: u16| j <= k < 16 ==> #[trigger] ((m >> k) & 1u16) == 0u16,
        decreases 16 - j,
    {
        if s[offset + j as usize] == needle {
            let ghost old_m = m;
            m = m | (1u16 << j);
            proof {
                assert forall|k: u16| k < 16 implies #[trigger] ((m >> k) & 1u16) == if k == j {
                    1u16
                } else {
                    (old_m >> k) & 1u16
                } by {
                    lemma_mask_set(old_m, j, k);
                }
            }
        }
        j = j + 1;
    }
    m
}

/// Lane mask of two 16-byte groups: bit `k` is set exactly when the bytes at
/// `offset + k` differ.
fn lane_ne_mask(a: &[u8], b: &[u8], offset: usize) -> (m: u16)
    requires
        offset + 16 <= a@.len(),
        offset + 16 <= b@.len(),
    ensures
        forall|k: u16|
            k < 16 ==> ((#[trigger] ((m >> k) & 1u16) == 1u16) <==> a@[offset + k] != b@[offset
                + k]),
{
    let n = a.len();
    let mut m: u16 = 0;
    let mut j: u16 = 0;
    proof {
        assert forall|k: u16| 0 <= k < 16 implies #[trigger] ((m >> k) & 1u16) == 0u16 by {
            lemma_mask_empty(k);
        }
    }
    while j < 16
        invariant
            j <= 16,
            offset + 16 <= a@.len(),
            n == a@.len(),
            offset + 16 <= b@.len(),
            forall|k: u16|
                k < j ==> ((#[trigger] ((m >> k) & 1u16) == 1u16) <==> a@[offset + k] != b@[offset
                    + k]),
            forall|k: u16| j <= k < 16 ==> #[trigger] ((m >> k) & 1u16) == 0u16,
        decreases 16 - j,
    {
        if a[offset + j as usize] != b[offset + j as usize] {
            let ghost old_m = m;
            m = m | (1u16 << j);
            proof {
                assert forall|k: u16| k < 16 implies #[trigger] ((m >> k) & 1u16) == if k == j {
                    1u16
                } else {
                    (old_m >> k) & 1u16
                } by {
                    lemma_mask_set(old_m, j, k);
                }
            }
        }
        j = j + 1;
    }
    m
}

/// First set lane of a mask: the lowest set bit, with every lower bit clear.
fn first_lane(m: u16) -> (r: usize)
    ensures
        m != 0 ==> r < 16 && (m >> (r as u16)) & 1u16 == 1u16 && forall|k: u16|
            k < r ==> #[trigger] ((m >> k) & 1u16) == 0u16,
        m == 0 ==> r == 16,
{
    let tz = m.trailing_zeros();
    proof {
        vstd::std_specs::bits::axiom_u16_trailing_zeros(m);
    }
    tz as usize
}

/// Scalar scan: first `needle` at or after `start`, or `s.len()`.
fn scan_from(s: &[u8], start: usize, needle: u8) -> (r: usize)
    requires
        start <= s@.len(),
        no_match(s@, 0, start as int, needle),
    ensures
        r == index_of(s@, needle),
{
    let mut i = start;
    while i < s.len() && s[i] != needle
        invariant
            start <= i <= s@.len(),
            no_match(s@, 0, i as int, needle),
        decreases s@.len() - i,
    {
        i = i + 1;
    }
    proof {
        lemma_index_of_unique(s@, needle, i as int);
    }
    i
}

/// Block scan: whole 16-byte groups by lane mask, the remainder by the scalar
/// scan.
fn scan_blocks(s: &[u8], needle: u8) -> (r: usize)
    ensures
        r == index_of(s@, needle),
{
    let len = s.len();
    let mut offset: usize = 0;
    while len >= BLOCK && offset <= len - BLOCK
        invariant
            len == s@.len(),
            offset <= len,
            no_match(s@, 0, offset as int, needle),
        decreases len - offset,
    {
        let m = lane_eq_mask(s, offset, needle);
        let lane = first_lane(m);
        if m != 0 {
            let r = offset + lane;
            proof {
                assert forall|i: int| 0 <= i < r implies s@[i] != needle by {
                    if i >= offset {
                        let k = (i - offset) as u16;
                        assert((m >> k) & 1u16 == 0u16);
                    }
                }
                assert(s@[r as int] == needle) by {
                    assert((m >> (lane as u16)) & 1u16 == 1u16);
                }
                lemma_index_of_unique(s@, needle, r as int);
            }
            return r;
        }
        proof {
            assert forall|i: int| 0 <= i < offset + 16 implies s@[i] != needle by {
                if i >= offset {
                    let k = (i - offset) as u16;
                    assert((m >> k) & 1u16 == 0u16) by {
                        lemma_mask_empty(k);
                    }
                }
            }
        }
        offset = offset + BLOCK;
    }
    scan_from(s, offset, needle)
}

pub(crate) fn strlen_scalar(s: &[u8]) -> (r: usize)
    ensures
        r == c_len(s@),
{
    scan_from(s, 0, 0)
}

fn strlen_sse2(s: &[u8]) -> (r: usize)
    ensures
        r == c_len(s@),
{
    scan_blocks(s, 0)
}

/// Length of the zero-terminated string in `s` (all of `s` when it holds no
/// terminator), by the most capable strategy the registry reports.
pub fn strlen_fast_slice(s: &[u8], features: &FeatureRegistry) -> (r: usize)
    ensures
        r == c_len(s@),
{
    if s.len() == 0 {
        return 0;
    }
    if crate::cpu_features::has_sse2(features) {
        strlen_sse2(s)
    } else {
        strlen_scalar(s)
    }
}

/// Byte compare of the first difference found at `i`, both strings longer
/// than `i` and equal before it.
proof fn lemma_cmp_at(a: Seq<u8>, b: Seq<u8>, i: int)
    requires
        0 <= i < a.len(),
        i < b.len(),
        a[i] != b[i],
        forall|j: int| 0 <= j < i ==> a[j] == b[j],
    ensures
        lex_cmp(a, b) == if a[i] < b[i] {
            -1int
        } else {
            1int
        },
{
    lemma_lex_skip(a, b, i);
    assert(a.skip(i)[0] == a[i]);
    assert(b.skip(i)[0] == b[i]);
}

/// The same, for the strings held in the first `len1` and `len2` bytes.
proof fn lemma_prefix_cmp_at(s1: Seq<u8>, s2: Seq<u8>, len1: int, len2: int, i: int)
    requires
        0 <= i < len1 <= s1.len(),
        i < len2 <= s2.len(),
        s1[i] != s2[i],
        forall|j: int| 0 <= j < i ==> s1[j] == s2[j],
    ensures
        lex_cmp(s1.take(len1), s2.take(len2)) == if s1[i] < s2[i] {
            -1int
        } else {
            1int
        },
{
    let a = s1.take(len1);
    let b = s2.take(len2);
    assert forall|j: int| 0 <= j < i implies a[j] == b[j] by {
        assert(a[j] == s1[j]);
        assert(b[j] == s2[j]);
    }
    lemma_cmp_at(a, b, i);
}

/// Order decided by length alone, both strings equal over the shorter one.
proof fn lemma_cmp_len(a: Seq<u8>, b: Seq<u8>)
    requires
        forall|j: int| 0 <= j < a.len() && j < b.len() ==> a[j] == b[j],
    ensures
        lex_cmp(a, b) == if a.len() < b.len() {
            -1int
        } else if a.len() > b.len() {
            1int
        } else {
            0int
        },
{
    let n = if a.len() < b.len() {
        a.len() as int
    } else {
        b.len() as int
    };
    lemma_lex_skip(a, b, n);
}

/// Compares the first `len1` bytes of `s1` with the first `len2` of `s2`
/// from `start` on, the two being equal before it.
pub(crate) fn cmp_prefixes(s1: &[u8], s2: &[u8], len1: usize, len2: usize, start: usize) -> (r: i32)
    requires
        start <= len1 <= s1@.len(),
        start <= len2 <= s2@.len(),
        forall|j: int| 0 <= j < start ==> s1@[j] == s2@[j],
    ensures
        r as int == lex_cmp(s1@.take(len1 as int), s2@.take(len2 as int)),
{
    let ghost a = s1@.take(len1 as int);
    let ghost b = s2@.take(len2 as int);
    let min_len = if len1 < len2 {
        len1
    } else {
        len2
    };
    let mut i = start;
    while i < min_len
        invariant
            start <= i <= min_len,
            min_len <= len1 <= s1@.len(),
            min_len <= len2 <= s2@.len(),
            min_len == len1 || min_len == len2,
            a == s1@.take(len1 as int),
            b == s2@.take(len2 as int),
            forall|j: int| 0 <= j < i ==> s1@[j] == s2@[j],
        decreases min_len - i,
    {
        if s1[i] != s2[i] {
            proof {
                lemma_prefix_cmp_at(s1@, s2@, len1 as int, len2 as int, i as int);
            }
            if s1[i] < s2[i] {
                return -1;
            } else {
                return 1;
            }
        }
        i = i + 1;
    }
    proof {
        assert forall|j: int| 0 <= j < a.len() && j < b.len() implies a[j] == b[j] by {
            assert(a[j] == s1@[j]);
            assert(b[j] == s2@[j]);
        }
        lemma_cmp_len(a, b);
    }
    if len1 < len2 {
        -1
    } else if len1 > len2 {
        1
    } else {
        0
    }
}

fn strcmp_scalar(s1: &[u8], s2: &[u8]) -> (r: i32)
    ensures
        r as int == c_strcmp(s1@, s2@),
{
    let len1 = strlen_scalar(s1);
    let len2 = strlen_scalar(s2);
    proof {
        lemma_index_of_bounds(s1@, 0);
        lemma_index_of_bounds(s2@, 0);
    }
    cmp_prefixes(s1, s2, len1, len2, 0)
}

/// Block compare: the first differing lane of each 16-byte group inside the
/// shorter string decides; the remainder goes by the scalar compare.
fn strcmp_sse42(s1: &[u8], s2: &[u8]) -> (r: i32)
    ensures
        r as int == c_strcmp(s1@, s2@),
{
    let len1 = strlen_scalar(s1);
    let len2 = strlen_scalar(s2);
    proof {
        lemma_index_of_bounds(s1@, 0);
        lemma_index_of_bounds(s2@, 0);
    }
    let ghost a = s1@.take(len1 as int);
    let ghost b = s2@.take(len2 as int);
    let min_len = if len1 < len2 {
        len1
    } else {
        len2
    };
    let mut offset: usize = 0;
    while min_len >= BLOCK && offset <= min_len - BLOCK
        invariant
            offset <= min_len,
            min_len <= len1 <= s1@.len(),
            min_len <= len2 <= s2@.len(),
            len1 == c_len(s1@),
            len2 == c_len(s2@),
            a == s1@.take(len1 as int),
            b == s2@.take(len2 as int),
            forall|j: int| 0 <= j < offset ==> s1@[j] == s2@[j],
        decreases min_len - offset,
    {
        let m = lane_ne_mask(s1, s2, offset);
        let lane = first_lane(m);
        if m != 0 {
            let i = offset + lane;
            proof {
                assert forall|j: int| 0 <= j < i implies s1@[j] == s2@[j] by {
                    if j >= offset {
                        let k = (j - offset) as u16;
                        assert((m >> k) & 1u16 == 0u16);
                    }
                }
                assert(s1@[i as int] != s2@[i as int]) by {
                    assert((m >> (lane as u16)) & 1u16 == 1u16);
                }
                lemma_prefix_cmp_at(s1@, s2@, len1 as int, len2 as int, i as int);
            }
            if s1[i] < s2[i] {
                return -1;
            } else {
                return 1;
            }
        }
        proof {
            assert forall|j: int| 0 <= j < offset + 16 implies s1@[j] == s2@[j] by {
                if j >= offset {
                    let k = (j - offset) as u16;
                    assert((m >> k) & 1u16 == 0u16) by {
                        lemma_mask_empty(k);
                    }
                }
            }
        }
        offset = offset + BLOCK;
    }
    cmp_prefixes(s1, s2, len1, len2, offset)
}

/// `strcmp` over the zero-terminated strings in `s1` and `s2`: -1, 0 or 1,
/// by the most capable strategy the registry reports.
pub fn strcmp_fast_slice(s1: &[u8], s2: &[u8], features: &FeatureRegistry) -> (r: i32)
    ensures
        r as int == c_strcmp(s1@, s2@),
{
    if crate::cpu_features::has_sse4_2(features) {
        strcmp_sse42(s1, s2)
    } else {
        strcmp_scalar(s1, s2)
    }
}

fn memchr_scalar(haystack: &[u8], needle: u8) -> (r: Option<usize>)
    ensures
        r == spec_find(haystack@, needle),
{
    let i = scan_from(haystack, 0, needle);
    if i < haystack.len() {
        Some(i)
    } else {
        None
    }
}

fn memchr_sse2(haystack: &[u8], needle: u8) -> (r: Option<usize>)
    ensures
        r == spec_find(haystack@, needle),
{
    let i = scan_blocks(haystack, needle);
    if i < haystack.len() {
        Some(i)
    } else {
        None
    }
}

/// Position of the first `needle` in `haystack`, by the most capable strategy
/// the registry reports.
pub fn memchr_fast_slice(haystack: &[u8], needle: u8, features: &FeatureRegistry) -> (r: Option<
    usize,
>)
    ensures
        r == spec_find(haystack@, needle),
{
    if haystack.len() == 0 {
        return None;
    }
    if crate::cpu_features::has_sse2(features) {
        memchr_sse2(haystack, needle)
    } else {
        memchr_scalar(haystack, needle)
    }
}

/// Scalar count over `[start, s.len())`, added to the count of the prefix.
fn count_from(s: &[u8], start: usize, acc: usize, needle: u8) -> (r: usize)
    requires
        start <= s@.len(),
        acc == count_of(s@.take(start as int), needle),
    ensures
        r == count_of(s@, needle),
{
    let mut i = start;
    let mut count = acc;
    while i < s.len()
        invariant
            start <= i <= s@.len(),
            count == count_of(s@.take(i as int), needle),
        decreases s@.len() - i,
    {
        proof {
            lemma_count_step(s@, needle, i as int);
            lemma_count_of_bound(s@.take(i as int), needle);
        }
        if s[i] == needle {
            count = count + 1;
        }
        i = i + 1;
    }
    assert(s@.take(i as int) =~= s@);
    count
}

fn count_bytes_scalar(haystack: &[u8], needle: u8) -> (r: usize)
    ensures
        r == count_of(haystack@, needle),
{
    assert(haystack@.take(0) =~= Seq::<u8>::empty());
    count_from(haystack, 0, 0, needle)
}

/// Block count: each whole 16-byte group's lane mask is tallied, the
/// remainder goes by the scalar count.
fn count_bytes_sse2(haystack: &[u8], needle: u8) -> (r: usize)
    ensures
        r == count_of(haystack@, needle),
{
    let len = haystack.len();
    let mut offset: usize = 0;
    let mut count: usize = 0;
    assert(haystack@.take(0) =~= Seq::<u8>::empty());
    while len >= BLOCK && offset <= len - BLOCK
        invariant
            len == haystack@.len(),
            offset <= len,
            count == count_of(haystack@.take(offset as int), needle),
        decreases len - offset,
    {
        let m = lane_eq_mask(haystack, offset, needle);
        let mut k: u16 = 0;
        while k < 16
            invariant
                k <= 16,
                offset + 16 <= len,
                len == haystack@.len(),
                forall|j: u16|
                    j < 16 ==> ((#[trigger] ((m >> j) & 1u16) == 1u16) <==> haystack@[offset + j]
                        == needle),
                count == count_of(haystack@.take(offset + k), needle),
            decreases 16 - k,
        {
            proof {
                lemma_count_step(haystack@, needle, offset + k);
                lemma_count_of_bound(haystack@.take(offset + k), needle);
            }
            if (m >> k) & 1u16 == 1u16 {
                count = count + 1;
            }
            k = k + 1;
        }
        offset = offset + BLOCK;
    }
    count_from(haystack, offset, count, needle)
}

/// Number of occurrences of `needle` in `haystack`, by the most capable
/// strategy the registry reports.
pub fn count_bytes_fast_slice(haystack: &[u8], needle: u8, features: &FeatureRegistry) -> (r:
    usize)
    ensures
        r == count_of(haystack@, needle),
{
    if haystack.len() == 0 {
        return 0;
    }
    if crate::cpu_features::has_sse2(features) {
        count_bytes_sse2(haystack, needle)
    } else {
        count_bytes_scalar(haystack, needle)
    }
}

} // verus!
