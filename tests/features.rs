use simd_kernel::cpu_features::{
    detect_386_variant, has_3dnow, has_avx, has_avx2, has_avx512f, has_avx512vnni, has_avx_vnni,
    has_cmpxchg8b, has_fpu, has_fxsr, has_mmx, has_sse, has_sse2, has_sse3, has_sse4_1,
    has_sse4_2, has_sse4a, has_ssse3, has_xsave, features_from_leaves, CpuFeatures, CpuVariant,
    ExtendedLeaf, FeatureRegistry, StandardLeaf, StructuredLeaf,
};

fn all_queries(r: &FeatureRegistry) -> Vec<bool> {
    vec![
        has_fpu(r),
        has_mmx(r),
        has_sse(r),
        has_sse2(r),
        has_sse3(r),
        has_ssse3(r),
        has_sse4_1(r),
        has_sse4_2(r),
        has_sse4a(r),
        has_3dnow(r),
        has_cmpxchg8b(r),
        has_fxsr(r),
        has_xsave(r),
        has_avx(r),
        has_avx2(r),
        has_avx512f(r),
        has_avx512vnni(r),
        has_avx_vnni(r),
    ]
}

fn every_flag() -> CpuFeatures {
    CpuFeatures {
        fpu: true,
        mmx: true,
        sse: true,
        sse2: true,
        sse3: true,
        ssse3: true,
        sse4_1: true,
        sse4_2: true,
        sse4a: true,
        amd_3dnow: true,
        cmpxchg8b: true,
        fxsr: true,
        xsave: true,
        avx: true,
        avx2: true,
        avx512f: true,
        avx512vnni: true,
        avx_vnni: true,
    }
}

#[test]
fn queries_are_false_before_init() {
    let r = FeatureRegistry::new();
    assert!(!r.is_initialized());
    assert!(all_queries(&r).iter().all(|&b| !b));
}

#[test]
fn installed_flags_are_reported() {
    let mut r = FeatureRegistry::new();
    r.install(true, every_flag());
    assert!(r.is_initialized());
    assert!(r.cpuid_supported());
    assert!(all_queries(&r).iter().all(|&b| b));
    let mut only_sse2 = CpuFeatures::none();
    only_sse2.sse2 = true;
    let mut r = FeatureRegistry::new();
    r.install(true, only_sse2);
    let q = all_queries(&r);
    assert_eq!(q.iter().filter(|&&b| b).count(), 1);
    assert!(has_sse2(&r));
}

#[test]
fn no_identification_records_nothing() {
    let mut r = FeatureRegistry::new();
    r.install(false, every_flag());
    assert!(r.is_initialized());
    assert!(!r.cpuid_supported());
    assert!(all_queries(&r).iter().all(|&b| !b));
    let mut r = FeatureRegistry::new();
    r.init(false);
    assert!(r.is_initialized());
    assert!(all_queries(&r).iter().all(|&b| !b));
}

#[test]
fn reads_after_init_are_stable() {
    let mut r = FeatureRegistry::new();
    r.init(true);
    let first = all_queries(&r);
    for _ in 0..5 {
        assert_eq!(all_queries(&r), first);
    }
    r.init(true);
    assert_eq!(all_queries(&r), first);
    r.install(true, every_flag());
    assert_eq!(all_queries(&r), first);
    r.init(false);
    assert_eq!(all_queries(&r), first);
    assert!(r.cpuid_supported());
}

#[test]
fn init_detects_the_running_processor() {
    let mut r = FeatureRegistry::new();
    r.init(true);
    // Every x86-64 processor has the x87 unit, SSE, SSE2 and FXSAVE.
    assert!(has_fpu(&r));
    assert!(has_sse(&r));
    assert!(has_sse2(&r));
    assert!(has_fxsr(&r));
}

#[test]
fn second_install_is_ignored() {
    let mut r = FeatureRegistry::new();
    r.install(true, CpuFeatures::none());
    r.install(true, every_flag());
    assert!(all_queries(&r).iter().all(|&b| !b));
}

#[test]
fn legacy_variant_classification() {
    let mut with_fpu = CpuFeatures::none();
    with_fpu.fpu = true;
    let mut r = FeatureRegistry::new();
    r.install(true, with_fpu);
    assert_eq!(detect_386_variant(true, &r), CpuVariant::Other);
    assert_eq!(detect_386_variant(false, &r), CpuVariant::I386DX);
    let mut bare = FeatureRegistry::new();
    bare.install(true, CpuFeatures::none());
    assert_eq!(detect_386_variant(false, &bare), CpuVariant::I386SX);
    assert_eq!(detect_386_variant(true, &bare), CpuVariant::Other);
    let mut legacy = FeatureRegistry::new();
    legacy.init(false);
    assert_eq!(detect_386_variant(false, &legacy), CpuVariant::I386SX);
}

fn standard(all: bool) -> StandardLeaf {
    StandardLeaf {
        fpu: all,
        mmx: all,
        sse: all,
        sse2: all,
        sse3: all,
        ssse3: all,
        sse4_1: all,
        sse4_2: all,
        cmpxchg8b: all,
        fxsave_fxstor: all,
        xsave: all,
        avx: all,
    }
}

fn structured(all: bool) -> StructuredLeaf {
    StructuredLeaf { avx2: all, avx512f: all, avx512vnni: all, avx_vnni: all }
}

#[test]
fn every_leaf_bit_reaches_its_query() {
    let x = ExtendedLeaf { sse4a: true, amd_3dnow: true, amd_3dnow_ext: true };
    let mut r = FeatureRegistry::new();
    r.init_from_leaves(true, Some(standard(true)), Some(structured(true)), Some(x));
    assert!(all_queries(&r).iter().all(|&b| b));
    assert_eq!(features_from_leaves(Some(standard(true)), Some(structured(true)), Some(x)), every_flag());
}

#[test]
fn each_flag_comes_from_its_own_bit() {
    let mut s = standard(false);
    s.fxsave_fxstor = true;
    let f = features_from_leaves(Some(s), None, None);
    let mut want = CpuFeatures::none();
    want.fxsr = true;
    assert_eq!(f, want);
    let mut s = standard(false);
    s.sse4_1 = true;
    s.avx = true;
    let mut e = structured(false);
    e.avx_vnni = true;
    let f = features_from_leaves(Some(s), Some(e), None);
    let mut want = CpuFeatures::none();
    want.sse4_1 = true;
    want.avx = true;
    want.avx_vnni = true;
    assert_eq!(f, want);
}

#[test]
fn amd_3dnow_is_either_bit() {
    for (plain, ext, want) in [(false, false, false), (true, false, true), (false, true, true), (true, true, true)] {
        let x = ExtendedLeaf { sse4a: false, amd_3dnow: plain, amd_3dnow_ext: ext };
        let mut r = FeatureRegistry::new();
        r.init_from_leaves(true, None, None, Some(x));
        assert_eq!(has_3dnow(&r), want);
        assert!(!has_sse4a(&r));
    }
}

#[test]
fn missing_leaf_leaves_its_flags_false() {
    let x = ExtendedLeaf { sse4a: true, amd_3dnow: true, amd_3dnow_ext: false };
    let mut r = FeatureRegistry::new();
    r.init_from_leaves(true, Some(standard(true)), None, Some(x));
    assert!(has_sse2(&r) && has_fxsr(&r) && has_avx(&r) && has_sse4a(&r) && has_3dnow(&r));
    assert!(!has_avx2(&r) && !has_avx512f(&r) && !has_avx512vnni(&r) && !has_avx_vnni(&r));
    let mut r = FeatureRegistry::new();
    r.init_from_leaves(true, None, Some(structured(true)), None);
    assert!(has_avx2(&r) && has_avx_vnni(&r));
    assert!(!has_fpu(&r) && !has_sse(&r) && !has_sse4a(&r) && !has_3dnow(&r));
    let mut r = FeatureRegistry::new();
    r.init_from_leaves(true, None, None, None);
    assert!(all_queries(&r).iter().all(|&b| !b));
}

#[test]
fn leaves_ignored_without_identification() {
    let mut r = FeatureRegistry::new();
    r.init_from_leaves(false, Some(standard(true)), Some(structured(true)), None);
    assert!(r.is_initialized());
    assert!(all_queries(&r).iter().all(|&b| !b));
}
