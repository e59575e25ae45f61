use simd_kernel::cpu_features::{CpuFeatures, FeatureRegistry};
use simd_kernel::fpu_state::{FpuStateFormat, RegisterFile, FPU_AREA_SIZE};
use simd_kernel::simd_integration::{
    init_simd_subsystem, kernel_fpu_begin, kernel_fpu_end, memcmp_fast, rust_copy_page,
    rust_ip_checksum, rust_pages_equal, rust_strncmp, rust_zero_page, SimdSubsystem, PAGE_SIZE,
};

fn sse2_registry() -> FeatureRegistry {
    let mut f = CpuFeatures::none();
    f.sse2 = true;
    f.fxsr = true;
    let mut r = FeatureRegistry::new();
    r.install(true, f);
    r
}

#[test]
fn fpu_entry_points_do_nothing_before_init() {
    let mut sub = SimdSubsystem::new();
    assert!(!sub.is_initialized());
    let mut hw = RegisterFile::new();
    hw.set(0, 0x55);
    kernel_fpu_begin(&mut sub, &mut hw);
    kernel_fpu_end(&mut sub, &mut hw);
    assert!(!sub.is_initialized());
    assert_eq!(hw.get(0), 0x55);
}

#[test]
fn fpu_entry_points_save_and_restore_after_init() {
    let mut sub = SimdSubsystem::new();
    init_simd_subsystem(&mut sub, &sse2_registry());
    assert!(sub.is_initialized());
    let mut hw = RegisterFile::new();
    kernel_fpu_begin(&mut sub, &mut hw);
    for i in 0..FPU_AREA_SIZE {
        hw.set(i, (i % 251) as u8);
    }
    kernel_fpu_end(&mut sub, &mut hw);
    for i in 0..FPU_AREA_SIZE {
        hw.set(i, 0);
    }
    kernel_fpu_begin(&mut sub, &mut hw);
    // FXSAVE format: the first 512 bytes come back.
    for i in 0..512 {
        assert_eq!(hw.get(i), (i % 251) as u8);
    }
    let _ = FpuStateFormat::FXSAVE;
}

#[test]
fn page_copy_zero_and_equality() {
    let features = sse2_registry();
    let src: Vec<u8> = (0..PAGE_SIZE + 8).map(|i| (i * 7) as u8).collect();
    let mut dst = vec![0xCCu8; PAGE_SIZE + 8];
    rust_copy_page(&mut dst, &src, &features);
    assert_eq!(&dst[..PAGE_SIZE], &src[..PAGE_SIZE]);
    assert!(dst[PAGE_SIZE..].iter().all(|&b| b == 0xCC));
    assert_eq!(rust_pages_equal(&dst, &src), 1);
    dst[PAGE_SIZE - 1] ^= 1;
    assert_eq!(rust_pages_equal(&dst, &src), 0);
    rust_zero_page(&mut dst, &features);
    assert!(dst[..PAGE_SIZE].iter().all(|&b| b == 0));
    assert!(dst[PAGE_SIZE..].iter().all(|&b| b == 0xCC));
    assert_eq!(rust_pages_equal(&dst, &vec![0u8; PAGE_SIZE]), 1);
}

#[test]
fn memcmp_orders_by_first_difference() {
    assert_eq!(memcmp_fast(b"abc", b"abc", 3), 0);
    assert_eq!(memcmp_fast(b"abc", b"abd", 3), -1);
    assert_eq!(memcmp_fast(b"abd", b"abc", 3), 1);
    assert_eq!(memcmp_fast(b"abd", b"abc", 2), 0);
    assert_eq!(memcmp_fast(&[0xFF], &[0x00], 1), 1);
    assert_eq!(memcmp_fast(b"", b"", 0), 0);
}

#[test]
fn strncmp_scenarios() {
    assert_eq!(rust_strncmp(b"abc\0", b"abd\0", 2), 0);
    assert_eq!(rust_strncmp(b"abc\0", b"abd\0", 3), -1);
    assert_eq!(rust_strncmp(b"abd\0", b"abc\0", 10), 1);
    assert_eq!(rust_strncmp(b"ab\0", b"abc\0", 3), -1);
    assert_eq!(rust_strncmp(b"abc\0x", b"abc\0y", 5), 0);
    assert_eq!(rust_strncmp(b"abc", b"xyz", 0), 0);
    assert_eq!(rust_strncmp(&[0x80, 0], &[0x7F, 0], 1), 1);
}

#[test]
fn checksum_values() {
    assert_eq!(rust_ip_checksum(&[]), 0xFFFF);
    assert_eq!(rust_ip_checksum(&[0x01]), 0xFFFE);
    assert_eq!(rust_ip_checksum(&[0x00, 0x01, 0xf2, 0x03, 0xf4, 0xf5, 0xf6, 0xf7]), 0x0D22);
    assert_eq!(rust_ip_checksum(&[0xFF, 0xFF]), 0x0000);
    assert_eq!(rust_ip_checksum(&vec![0xFFu8; 4096]), 0x0000);
    assert_eq!(rust_ip_checksum(&[0x34, 0x12, 0x01]), !0x1235u16);
}
