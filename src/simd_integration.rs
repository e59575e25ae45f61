//! The kernel-facing surface: the FPU manager behind an initialization flag,
//! and composite helpers built on the bulk primitives (page copy, page clear,
//! page equality, bounded string compare, one's-complement checksum).
//!
//! The kernel hands raw pointers with lengths; turning those into slices is
//! the caller's side. Everything here works on the slices.

use vstd::prelude::*;
use crate::cpu_features::FeatureRegistry;
use crate::fpu_state::{FpuContextView, FpuHardware, FpuManager, image_len, select_format, FPU_AREA_SIZE};
use crate::simd_mem::{memcpy_fast, memset_fast, spec_copy, spec_fill};
use crate::simd_string::{c_len, cmp_prefixes, lex_cmp, lemma_index_of_bounds};

verus! {

/// Bytes in a page.
pub const PAGE_SIZE: usize = 4096;

/// Owner of the kernel's FPU manager. Until `init_simd_subsystem` runs there
/// is no manager, and the FPU entry points do nothing.
pub struct SimdSubsystem {
    manager: Option<FpuManager>,
}

impl SimdSubsystem {
    /// The manager's state, once the subsystem is initialized.
    pub closed spec fn spec_manager(&self) -> Option<FpuContextView> {
        match self.manager {
            Some(m) => Some(m@),
            None => None,
        }
    }

    pub fn new() -> (r: SimdSubsystem)
        ensures
            r.spec_manager() is None,
    {
        SimdSubsystem { manager: None }
    }

    pub fn is_initialized(&self) -> (r: bool)
        ensures
            r == self.spec_manager() is Some,
    {
        self.manager.is_some()
    }
}

/// Brings the subsystem up: an idle manager with a cleared image in the best
/// format the registry reports. The control registers are configured by the
/// caller beforehand (`init_fpu_cr0`, `init_fpu_cr4`).
pub fn init_simd_subsystem(subsystem: &mut SimdSubsystem, features: &FeatureRegistry)
    ensures
        final(subsystem).spec_manager() is Some,
        final(subsystem).spec_manager()->Some_0.format == select_format(features),
        final(subsystem).spec_manager()->Some_0.image == Seq::new(
            FPU_AREA_SIZE as nat,
            |_i: int| 0u8,
        ),
        !final(subsystem).spec_manager()->Some_0.active,
{
    subsystem.manager = Some(FpuManager::new(features));
}

/// Enters a section that uses floating-point/vector instructions: the
/// manager's `begin_use`, or nothing before initialization.
pub fn kernel_fpu_begin<H: FpuHardware>(subsystem: &mut SimdSubsystem, hw: &mut H)
    requires
        old(hw).registers().len() == FPU_AREA_SIZE,
    ensures
        final(hw).registers().len() == FPU_AREA_SIZE,
        old(subsystem).spec_manager() is None ==> *final(subsystem) == *old(subsystem) && *final(hw)
            == *old(hw),
        old(subsystem).spec_manager() is Some ==> {
            let m = old(subsystem).spec_manager()->Some_0;
            &&& final(subsystem).spec_manager() == Some(m.after_begin_use())
            &&& !m.active ==> final(hw).registers().take(image_len(m.format) as int)
                == m.loaded_image()
            &&& m.active ==> *final(hw) == *old(hw)
        },
{
    match &mut subsystem.manager {
        Some(m) => m.begin_use(hw),
        None => {},
    }
}

/// Leaves the section: the manager's `end_use`, or nothing before
/// initialization.
pub fn kernel_fpu_end<H: FpuHardware>(subsystem: &mut SimdSubsystem, hw: &mut H)
    requires
        old(hw).registers().len() == FPU_AREA_SIZE,
    ensures
        final(hw).registers().len() == FPU_AREA_SIZE,
        old(subsystem).spec_manager() is None ==> *final(subsystem) == *old(subsystem) && *final(hw)
            == *old(hw),
        old(subsystem).spec_manager() is Some ==> {
            let m = old(subsystem).spec_manager()->Some_0;
            &&& final(subsystem).spec_manager() == Some(m.after_end_use(old(hw).registers()))
            &&& !m.active ==> *final(hw) == *old(hw)
        },
{
    match &mut subsystem.manager {
        Some(m) => m.end_use(hw),
        None => {},
    }
}

/// Copies one page.
pub fn rust_copy_page(dst: &mut [u8], src: &[u8], features: &FeatureRegistry)
    requires
        PAGE_SIZE <= old(dst)@.len(),
        PAGE_SIZE <= src@.len(),
    ensures
        final(dst)@ == spec_copy(old(dst)@, src@, PAGE_SIZE as int),
{
    memcpy_fast(dst, src, PAGE_SIZE, features);
}

/// Clears one page.
pub fn rust_zero_page(dst: &mut [u8], features: &FeatureRegistry)
    requires
        PAGE_SIZE <= old(dst)@.len(),
    ensures
        final(dst)@ == spec_fill(old(dst)@, 0, PAGE_SIZE as int),
{
    memset_fast(dst, 0, PAGE_SIZE, features);
}

/// Compares the first `len` bytes of two buffers: -1, 0 or 1 by the first
/// differing byte, unsigned.
pub fn memcmp_fast(s1: &[u8], s2: &[u8], len: usize) -> (r: i32)
    requires
        len <= s1@.len(),
        len <= s2@.len(),
    ensures
        r as int == lex_cmp(s1@.take(len as int), s2@.take(len as int)),
        r == 0 <==> s1@.take(len as int) == s2@.take(len as int),
{
    let r = cmp_prefixes(s1, s2, len, len, 0);
    proof {
        lemma_lex_zero_iff_equal(s1@.take(len as int), s2@.take(len as int));
    }
    r
}

/// Two byte sequences are ordered equal exactly when they are equal.
pub proof fn lemma_lex_zero_iff_equal(a: Seq<u8>, b: Seq<u8>)
    ensures
        lex_cmp(a, b) == 0 <==> a == b,
    decreases a.len(),
{
    if a.len() > 0 && b.len() > 0 && a[0] == b[0] {
        lemma_lex_zero_iff_equal(a.drop_first(), b.drop_first());
        if a.drop_first() == b.drop_first() {
            assert(a =~= b.drop_first().insert(0, a[0]));
            assert(b =~= b.drop_first().insert(0, b[0]));
        }
        if a == b {
            assert(a.drop_first() =~= b.drop_first());
        }
    } else if a.len() > 0 && b.len() > 0 {
        assert(a[0] != b[0]);
    } else if a.len() == 0 && b.len() == 0 {
        assert(a =~= b);
    }
}

/// 1 when the first pages of the two buffers hold the same bytes, else 0.
pub fn rust_pages_equal(p1: &[u8], p2: &[u8]) -> (r: i32)
    requires
        PAGE_SIZE <= p1@.len(),
        PAGE_SIZE <= p2@.len(),
    ensures
        r == if p1@.take(PAGE_SIZE as int) == p2@.take(PAGE_SIZE as int) {
            1i32
        } else {
            0i32
        },
{
    if memcmp_fast(p1, p2, PAGE_SIZE) == 0 {
        1
    } else {
        0
    }
}

/// `strncmp` over the zero-terminated strings held in `s1` and `s2` (a slice
/// end counts as a terminator), looking at no more than `n` bytes of each.
pub open spec fn c_strncmp(s1: Seq<u8>, s2: Seq<u8>, n: int) -> int {
    let l1 = if c_len(s1) < n {
        c_len(s1)
    } else {
        n
    };
    let l2 = if c_len(s2) < n {
        c_len(s2)
    } else {
        n
    };
    lex_cmp(s1.take(l1), s2.take(l2))
}

/// Bounded string compare: -1, 0 or 1.
pub fn rust_strncmp(s1: &[u8], s2: &[u8], n: usize) -> (r: i32)
    ensures
        r as int == c_strncmp(s1@, s2@, n as int),
{
    let l1 = crate::simd_string::strlen_scalar(s1);
    let l2 = crate::simd_string::strlen_scalar(s2);
    proof {
        lemma_index_of_bounds(s1@, 0);
        lemma_index_of_bounds(s2@, 0);
    }
    let len1 = if l1 < n {
        l1
    } else {
        n
    };
    let len2 = if l2 < n {
        l2
    } else {
        n
    };
    cmp_prefixes(s1, s2, len1, len2, 0)
}

/// Sum of the data read as little-endian 16-bit words, an odd last byte
/// counting as a word of its own.
pub open spec fn word_sum(s: Seq<u8>) -> nat
    decreases s.len(),
{
    if s.len() == 0 {
        0
    } else if s.len() == 1 {
        s[0] as nat
    } else {
        s[0] as nat + 256 * (s[1] as nat) + word_sum(s.skip(2))
    }
}

/// End-around-carry reduction of a sum to 16 bits: 0 only for 0, otherwise
/// the value in 1..=0xFFFF congruent to it modulo 0xFFFF.
pub open spec fn fold16(x: nat) -> nat {
    if x == 0 {
        0
    } else {
        ((x - 1) as nat % 0xFFFF) + 1
    }
}

/// The one's-complement checksum of `s`.
pub open spec fn ip_checksum(s: Seq<u8>) -> u16 {
    (0xFFFF - fold16(word_sum(s))) as u16
}

proof fn lemma_fold_step(sum: u64)
    requires
        sum >> 16u64 != 0,
    ensures
        (sum & 0xFFFFu64) + (sum >> 16u64) < sum,
        fold16(((sum & 0xFFFFu64) + (sum >> 16u64)) as nat) == fold16(sum as nat),
{
    let lo = sum & 0xFFFFu64;
    let hi = sum >> 16u64;
    assert(sum & 0xFFFFu64 == sum % 0x10000) by (bit_vector);
    assert(sum >> 16u64 == sum / 0x10000) by (bit_vector);
    let s = sum as int;
    let l = lo as int;
    let h = hi as int;
    assert(s == h * 0x10000 + l);
    assert(h + l < s) by (nonlinear_arith)
        requires
            s == h * 0x10000 + l,
            h >= 1,
            l >= 0,
    ;
    assert(h + l >= 1);
    assert((s - 1) % 0xFFFF == (h + l - 1) % 0xFFFF) by {
        assert(s - 1 == (h + l - 1) + 0xFFFF * h) by (nonlinear_arith)
            requires
                s == h * 0x10000 + l,
        ;
        vstd::arithmetic::div_mod::lemma_mod_multiples_vanish(h, h + l - 1, 0xFFFF);
    }
}

/// The one's-complement checksum of `data`, read as little-endian 16-bit
/// words. `data` is no longer than a C `int` count allows.
pub fn rust_ip_checksum(data: &[u8]) -> (r: u16)
    requires
        data@.len() <= i32::MAX,
    ensures
        r == ip_checksum(data@),
{
    let len = data.len();
    let mut sum: u64 = 0;
    let mut i: usize = 0;
    proof {
        assert(data@.skip(0) =~= data@);
    }
    while i + 1 < len
        invariant
            len == data@.len(),
            len <= i32::MAX,
            i <= len,
            sum <= 0x10000 * i,
            sum + word_sum(data@.skip(i as int)) == word_sum(data@),
        decreases len - i,
    {
        proof {
            assert(data@.skip(i as int).skip(2) =~= data@.skip(i + 2));
            assert(data@.skip(i as int)[0] == data@[i as int]);
            assert(data@.skip(i as int)[1] == data@[i + 1]);
        }
        let word = data[i] as u64 + 256 * (data[i + 1] as u64);
        sum = sum + word;
        i = i + 2;
    }
    if i < len {
        proof {
            assert(data@.skip(i as int).len() == 1);
            assert(data@.skip(i as int)[0] == data@[i as int]);
        }
        sum = sum + data[i] as u64;
    } else {
        assert(data@.skip(i as int).len() == 0);
    }
    assert(sum == word_sum(data@));
    while (sum >> 16u64) != 0
        invariant
            fold16(sum as nat) == fold16(word_sum(data@)),
        decreases sum,
    {
        proof {
            lemma_fold_step(sum);
        }
        sum = (sum & 0xFFFFu64) + (sum >> 16u64);
    }
    proof {
        assert(sum >> 16u64 == 0 ==> sum <= 0xFFFF) by (bit_vector);
    }
    (0xFFFFu64 - sum) as u16
}

} // verus!
