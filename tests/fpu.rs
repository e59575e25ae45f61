use simd_kernel::cpu_features::{CpuFeatures, FeatureRegistry};
use simd_kernel::fpu_state::{
    init_fpu_cr0, init_fpu_cr4, FpuHardware, FpuManager, FpuState, FpuStateFormat, RegisterFile,
    FPU_AREA_SIZE,
};

fn registry(xsave: bool, fxsr: bool, sse: bool) -> FeatureRegistry {
    let mut f = CpuFeatures::none();
    f.xsave = xsave;
    f.fxsr = fxsr;
    f.sse = sse;
    let mut r = FeatureRegistry::new();
    r.install(true, f);
    r
}

fn image_len(format: FpuStateFormat) -> usize {
    match format {
        FpuStateFormat::FSAVE => 108,
        FpuStateFormat::FXSAVE => 512,
        FpuStateFormat::XSAVE => 576,
    }
}

fn write_pattern(hw: &mut RegisterFile, seed: u8) {
    for i in 0..FPU_AREA_SIZE {
        hw.set(i, (i as u8).wrapping_mul(31).wrapping_add(seed));
    }
}

fn snapshot(hw: &RegisterFile) -> Vec<u8> {
    (0..FPU_AREA_SIZE).map(|i| hw.get(i)).collect()
}

#[test]
fn format_follows_priority() {
    assert_eq!(FpuState::new(&registry(true, true, true)).is_xsave_format(), true);
    assert_eq!(FpuManager::new(&registry(true, true, true)).format(), FpuStateFormat::XSAVE);
    assert_eq!(FpuManager::new(&registry(true, false, false)).format(), FpuStateFormat::XSAVE);
    assert_eq!(FpuManager::new(&registry(false, true, true)).format(), FpuStateFormat::FXSAVE);
    assert_eq!(FpuManager::new(&registry(false, false, true)).format(), FpuStateFormat::FSAVE);
    assert_eq!(FpuManager::new(&FeatureRegistry::new()).format(), FpuStateFormat::FSAVE);
    assert!(!FpuState::new(&registry(false, true, true)).is_xsave_format());
    let d: FpuState = Default::default();
    assert!(!d.is_xsave_format());
}

#[test]
fn pattern_survives_a_use_cycle_in_every_format() {
    for (xsave, fxsr) in [(true, true), (false, true), (false, false)] {
        let features = registry(xsave, fxsr, fxsr);
        let mut m = FpuManager::new(&features);
        let n = image_len(m.format());
        let mut hw = RegisterFile::new();
        m.begin_use(&mut hw);
        assert!(m.is_active());
        write_pattern(&mut hw, 17);
        let pattern = snapshot(&hw);
        m.end_use(&mut hw);
        assert!(!m.is_active());
        // Another context clobbers the unit in between.
        write_pattern(&mut hw, 200);
        m.begin_use(&mut hw);
        assert_eq!(&snapshot(&hw)[..n], &pattern[..n]);
    }
}

#[test]
fn begin_and_end_are_lazy() {
    let features = registry(false, true, true);
    let mut m = FpuManager::new(&features);
    let mut hw = RegisterFile::new();
    // Idle: end_use saves nothing.
    write_pattern(&mut hw, 5);
    m.end_use(&mut hw);
    assert!(!m.is_active());
    // First begin_use loads the cleared image.
    m.begin_use(&mut hw);
    assert!(snapshot(&hw)[..512].iter().all(|&b| b == 0));
    // Active: a second begin_use does not reload.
    write_pattern(&mut hw, 9);
    let before = snapshot(&hw);
    m.begin_use(&mut hw);
    assert_eq!(snapshot(&hw), before);
}

#[test]
fn save_and_restore_cover_the_format_only() {
    let mut s = FpuState::new(&registry(false, false, false));
    let mut hw = RegisterFile::new();
    write_pattern(&mut hw, 3);
    let pattern = snapshot(&hw);
    s.save(&mut hw);
    let mut other = RegisterFile::new();
    s.restore(&mut other);
    let got = snapshot(&other);
    assert_eq!(&got[..108], &pattern[..108]);
    assert!(got[108..].iter().all(|&b| b == 0));
}

#[test]
fn save_image_writes_the_prefix() {
    let mut hw = RegisterFile::new();
    write_pattern(&mut hw, 1);
    let mut area = [0xEEu8; FPU_AREA_SIZE];
    hw.save_image(FpuStateFormat::FXSAVE, &mut area);
    assert_eq!(&area[..512], &snapshot(&hw)[..512]);
    assert!(area[512..].iter().all(|&b| b == 0xEE));
}

#[test]
fn control_register_settings() {
    assert_eq!(init_fpu_cr0(0x0000_0004), 0x0000_0022);
    assert_eq!(init_fpu_cr0(0x8000_0011), 0x8000_0033);
    assert_eq!(init_fpu_cr0(0xFFFF_FFFF), 0xFFFF_FFFB);
    assert_eq!(init_fpu_cr4(0, &registry(true, true, true)), 0x0004_0600);
    assert_eq!(init_fpu_cr4(0x20, &registry(false, true, true)), 0x0000_0620);
    assert_eq!(init_fpu_cr4(0x20, &registry(false, false, false)), 0x20);
    assert_eq!(init_fpu_cr4(0, &FeatureRegistry::new()), 0);
}
