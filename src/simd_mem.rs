//! Bulk copy and fill, each in a scalar form and a 16-byte block form,
//! selected per call from the capability registry.

use vstd::prelude::*;
use crate::cpu_features::FeatureRegistry;
use crate::simd_string::BLOCK;

verus! {

/// `dst` after its first `n` bytes were replaced by the first `n` of `src`.
pub open spec fn spec_copy(dst: Seq<u8>, src: Seq<u8>, n: int) -> Seq<u8> {
    src.take(n) + dst.skip(n)
}

/// `dst` after its first `n` bytes were set to `val`.
pub open spec fn spec_fill(dst: Seq<u8>, val: u8, n: int) -> Seq<u8> {
    Seq::new(n as nat, |_i: int| val) + dst.skip(n)
}

/// `byte` shifted into a word `times` times from the low end.
pub open spec fn spec_repeat_byte(byte: u8, times: nat) -> u64
    decreases times,
{
    if times == 0 {
        0
    } else {
        (spec_repeat_byte(byte, (times - 1) as nat) << 8u64) | (byte as u64)
    }
}

proof fn lemma_shift_in(v: u64, b: u8, k: u64)
    requires
        k < 8,
    ensures
        (((v << 8u64) | (b as u64)) >> (8u64 * k)) & 0xFFu64 == if k == 0 {
            b as u64
        } else {
            (v >> (8u64 * (k - 1) as u64)) & 0xFFu64
        },
{
    assert((((v << 8u64) | (b as u64)) >> (8u64 * k)) & 0xFFu64 == if k == 0 {
        b as u64
    } else {
        (v >> (8u64 * (k - 1) as u64)) & 0xFFu64
    }) by (bit_vector)
        requires
            k < 8,
    ;
}

/// A word made of `times` copies of `byte`: its low `min(times, 8)` bytes are
/// `byte` and the rest are 0.
pub fn repeat_byte(byte: u8, times: usize) -> (r: u64)
    ensures
        r == spec_repeat_byte(byte, times as nat),
        forall|k: u64|
            k < 8 ==> #[trigger] ((r >> (8u64 * k)) & 0xFFu64) == if (k as int) < times {
                byte as u64
            } else {
                0u64
            },
{
    let mut val: u64 = 0;
    let mut i: usize = 0;
    assert forall|k: u64| k < 8 implies #[trigger] ((0u64 >> (8u64 * k)) & 0xFFu64) == 0u64 by {
        assert((0u64 >> (8u64 * k)) & 0xFFu64 == 0u64) by (bit_vector);
    }
    while i < times
        invariant
            i <= times,
            val == spec_repeat_byte(byte, i as nat),
            forall|k: u64|
                k < 8 ==> #[trigger] ((val >> (8u64 * k)) & 0xFFu64) == if (k as int) < i {
                    byte as u64
                } else {
                    0u64
                },
        decreases times - i,
    {
        let ghost old_val = val;
        val = (val << 8u64) | (byte as u64);
        proof {
            assert forall|k: u64| k < 8 implies #[trigger] ((val >> (8u64 * k)) & 0xFFu64) == if (k
                as int) < i + 1 {
                byte as u64
            } else {
                0u64
            } by {
                lemma_shift_in(old_val, byte, k);
                if k > 0 {
                    let j = (k - 1) as u64;
                    assert((old_val >> (8u64 * j)) & 0xFFu64 == if (j as int) < i {
                        byte as u64
                    } else {
                        0u64
                    });
                }
            }
        }
        i = i + 1;
    }
    val
}

/// Copies `src[start..len]` into `dst[start..len]`.
fn copy_range(dst: &mut [u8], src: &[u8], start: usize, len: usize)
    requires
        start <= len,
        len <= old(dst)@.len(),
        len <= src@.len(),
    ensures
        final(dst)@.len() == old(dst)@.len(),
        forall|i: int| start <= i < len ==> final(dst)@[i] == src@[i],
        forall|i: int| 0 <= i < start || len <= i < old(dst)@.len() ==> final(dst)@[i] == old(dst)@[i],
{
    let mut i = start;
    while i < len
        invariant
            start <= i <= len,
            len <= dst@.len(),
            len <= src@.len(),
            dst@.len() == old(dst)@.len(),
            forall|j: int| start <= j < i ==> dst@[j] == src@[j],
            forall|j: int| 0 <= j < start || i <= j < old(dst)@.len() ==> dst@[j] == old(dst)@[j],
        decreases len - i,
    {
        dst[i] = src[i];
        i = i + 1;
    }
}

/// Sets `dst[start..len]` to `val`.
fn fill_range(dst: &mut [u8], val: u8, start: usize, len: usize)
    requires
        start <= len,
        len <= old(dst)@.len(),
    ensures
        final(dst)@.len() == old(dst)@.len(),
        forall|i: int| start <= i < len ==> final(dst)@[i] == val,
        forall|i: int| 0 <= i < start || len <= i < old(dst)@.len() ==> final(dst)@[i] == old(dst)@[i],
{
    let mut i = start;
    while i < len
        invariant
            start <= i <= len,
            len <= dst@.len(),
            dst@.len() == old(dst)@.len(),
            forall|j: int| start <= j < i ==> dst@[j] == val,
            forall|j: int| 0 <= j < start || i <= j < old(dst)@.len() ==> dst@[j] == old(dst)@[j],
        decreases len - i,
    {
        dst[i] = val;
        i = i + 1;
    }
}

fn memcpy_scalar(dst: &mut [u8], src: &[u8], len: usize)
    requires
        len <= old(dst)@.len(),
        len <= src@.len(),
    ensures
        final(dst)@ == spec_copy(old(dst)@, src@, len as int),
{
    copy_range(dst, src, 0, len);
    assert(dst@ =~= spec_copy(old(dst)@, src@, len as int));
}

fn memcpy_mmx(dst: &mut [u8], src: &[u8], len: usize)
    requires
        len <= old(dst)@.len(),
        len <= src@.len(),
    ensures
        final(dst)@ == spec_copy(old(dst)@, src@, len as int),
{
    memcpy_scalar(dst, src, len);
}

/// Whole 16-byte groups first, the remainder byte by byte.
fn memcpy_sse2(dst: &mut [u8], src: &[u8], len: usize)
    requires
        len <= old(dst)@.len(),
        len <= src@.len(),
    ensures
        final(dst)@ == spec_copy(old(dst)@, src@, len as int),
{
    let mut offset: usize = 0;
    while len >= BLOCK && offset <= len - BLOCK
        invariant
            offset <= len,
            len <= dst@.len(),
            len <= src@.len(),
            dst@.len() == old(dst)@.len(),
            forall|j: int| 0 <= j < offset ==> dst@[j] == src@[j],
            forall|j: int| offset <= j < old(dst)@.len() ==> dst@[j] == old(dst)@[j],
        decreases len - offset,
    {
        copy_range(dst, src, offset, offset + BLOCK);
        offset = offset + BLOCK;
    }
    copy_range(dst, src, offset, len);
    assert(dst@ =~= spec_copy(old(dst)@, src@, len as int));
}

/// Copies the first `len` bytes of `src` over the first `len` of `dst`, by
/// the most capable strategy the registry reports. The borrow rules keep the
/// two ranges apart.
pub fn memcpy_fast(dst: &mut [u8], src: &[u8], len: usize, features: &FeatureRegistry)
    requires
        len <= old(dst)@.len(),
        len <= src@.len(),
    ensures
        final(dst)@ == spec_copy(old(dst)@, src@, len as int),
{
    if len == 0 {
        assert(dst@ =~= spec_copy(old(dst)@, src@, 0));
        return ;
    }
    if crate::cpu_features::has_sse2(features) {
        memcpy_sse2(dst, src, len);
        return ;
    }
    if crate::cpu_features::has_mmx(features) {
        memcpy_mmx(dst, src, len);
        return ;
    }
    memcpy_scalar(dst, src, len);
}

fn memset_scalar(dst: &mut [u8], val: u8, len: usize)
    requires
        len <= old(dst)@.len(),
    ensures
        final(dst)@ == spec_fill(old(dst)@, val, len as int),
{
    fill_range(dst, val, 0, len);
    assert(dst@ =~= spec_fill(old(dst)@, val, len as int));
}

fn memset_mmx(dst: &mut [u8], val: u8, len: usize)
    requires
        len <= old(dst)@.len(),
    ensures
        final(dst)@ == spec_fill(old(dst)@, val, len as int),
{
    memset_scalar(dst, val, len);
}

/// Whole 16-byte groups first, the remainder byte by byte.
fn memset_sse2(dst: &mut [u8], val: u8, len: usize)
    requires
        len <= old(dst)@.len(),
    ensures
        final(dst)@ == spec_fill(old(dst)@, val, len as int),
{
    let mut offset: usize = 0;
    while len >= BLOCK && offset <= len - BLOCK
        invariant
            offset <= len,
            len <= dst@.len(),
            dst@.len() == old(dst)@.len(),
            forall|j: int| 0 <= j < offset ==> dst@[j] == val,
            forall|j: int| offset <= j < old(dst)@.len() ==> dst@[j] == old(dst)@[j],
        decreases len - offset,
    {
        fill_range(dst, val, offset, offset + BLOCK);
        offset = offset + BLOCK;
    }
    fill_range(dst, val, offset, len);
    assert(dst@ =~= spec_fill(old(dst)@, val, len as int));
}

/// Sets the first `len` bytes of `dst` to `val`, by the most capable strategy
/// the registry reports.
pub fn memset_fast(dst: &mut [u8], val: u8, len: usize, features: &FeatureRegistry)
    requires
        len <= old(dst)@.len(),
    ensures
        final(dst)@ == spec_fill(old(dst)@, val, len as int),
{
    if len == 0 {
        assert(dst@ =~= spec_fill(old(dst)@, val, 0));
        return ;
    }
    if crate::cpu_features::has_sse2(features) {
        memset_sse2(dst, val, len);
        return ;
    }
    if crate::cpu_features::has_mmx(features) {
        memset_mmx(dst, val, len);
        return ;
    }
    memset_scalar(dst, val, len);
}

} // verus!
