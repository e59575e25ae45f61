//! Processor capability registry: detected once at boot, read-only afterwards.
//!
//! The registry is an explicit init-once object. Before `init` every query
//! answers `false`; `init` records the detected flags exactly once, and every
//! later query reads them unchanged.

use vstd::prelude::*;

verus! {

/// The flags of capability leaf 1, one per query of raw_cpuid's `FeatureInfo`.
#[derive(Clone, Copy, Debug, PartialEq, Eq, Structural)]
pub struct StandardLeaf {
    pub fpu: bool,
    pub mmx: bool,
    pub sse: bool,
    pub sse2: bool,
    pub sse3: bool,
    pub ssse3: bool,
    pub sse4_1: bool,
    pub sse4_2: bool,
    pub cmpxchg8b: bool,
    pub fxsave_fxstor: bool,
    pub xsave: bool,
    pub avx: bool,
}

/// The flags of capability leaf 7, one per query of raw_cpuid's
/// `ExtendedFeatures`.
#[derive(Clone, Copy, Debug, PartialEq, Eq, Structural)]
pub struct StructuredLeaf {
    pub avx2: bool,
    pub avx512f: bool,
    pub avx512vnni: bool,
    pub avx_vnni: bool,
}

/// The flags of capability leaf 0x8000_0001, one per query of raw_cpuid's
/// `ExtendedProcessorFeatureIdentifiers`.
#[derive(Clone, Copy, Debug, PartialEq, Eq, Structural)]
pub struct ExtendedLeaf {
    pub sse4a: bool,
    pub amd_3dnow: bool,
    pub amd_3dnow_ext: bool,
}

/// Relies on raw_cpuid's `CpuId::new` and `CpuId::get_feature_info` (leaf 1 of
/// the running processor, `None` when it does not report that leaf), and on
/// the `FeatureInfo` bit tests `has_fpu`, `has_mmx`, `has_sse`, `has_sse2`,
/// `has_sse3`, `has_ssse3`, `has_sse41`, `has_sse42`, `has_cmpxchg8b`,
/// `has_fxsave_fxstor`, `has_xsave` and `has_avx`, each copied to the field of
/// its name.
#[verifier::external_body]
fn standard_feature_leaf() -> Option<StandardLeaf> {
    let f = raw_cpuid::CpuId::new().get_feature_info()?;
    Some(StandardLeaf {
        fpu: f.has_fpu(), mmx: f.has_mmx(), sse: f.has_sse(), sse2: f.has_sse2(),
        sse3: f.has_sse3(), ssse3: f.has_ssse3(), sse4_1: f.has_sse41(), sse4_2: f.has_sse42(),
        cmpxchg8b: f.has_cmpxchg8b(), fxsave_fxstor: f.has_fxsave_fxstor(),
        xsave: f.has_xsave(), avx: f.has_avx(),
    })
}

/// Relies on raw_cpuid's `CpuId::new` and `CpuId::get_extended_feature_info`
/// (leaf 7 of the running processor, `None` when it does not report that
/// leaf), and on the `ExtendedFeatures` bit tests `has_avx2`, `has_avx512f`,
/// `has_avx512vnni` and `has_avx_vnni`, each copied to the field of its name.
#[verifier::external_body]
fn structured_feature_leaf() -> Option<StructuredLeaf> {
    let f = raw_cpuid::CpuId::new().get_extended_feature_info()?;
    Some(StructuredLeaf {
        avx2: f.has_avx2(), avx512f: f.has_avx512f(),
        avx512vnni: f.has_avx512vnni(), avx_vnni: f.has_avx_vnni(),
    })
}

/// Relies on raw_cpuid's `CpuId::new` and
/// `CpuId::get_extended_processor_and_feature_identifiers` (leaf 0x8000_0001
/// of the running processor, `None` when it does not report that leaf), and on
/// its bit tests `has_sse4a`, `has_3dnow` and `has_amd_3dnow_extensions`
/// (each `false` on processors other than AMD's), copied to `sse4a`,
/// `amd_3dnow` and `amd_3dnow_ext`.
#[verifier::external_body]
fn extended_processor_leaf() -> Option<ExtendedLeaf> {
    let f = raw_cpuid::CpuId::new().get_extended_processor_and_feature_identifiers()?;
    Some(ExtendedLeaf {
        sse4a: f.has_sse4a(), amd_3dnow: f.has_3dnow(), amd_3dnow_ext: f.has_amd_3dnow_extensions(),
    })
}

/// One flag per instruction-set extension the kernel cares about.
#[derive(Clone, Copy, Debug, PartialEq, Eq, Structural)]
pub struct CpuFeatures {
    pub fpu: bool,
    pub mmx: bool,
    pub sse: bool,
    pub sse2: bool,
    pub sse3: bool,
    pub ssse3: bool,
    pub sse4_1: bool,
    pub sse4_2: bool,
    pub sse4a: bool,
    pub amd_3dnow: bool,
    pub cmpxchg8b: bool,
    pub fxsr: bool,
    pub xsave: bool,
    pub avx: bool,
    pub avx2: bool,
    pub avx512f: bool,
    pub avx512vnni: bool,
    pub avx_vnni: bool,
}

impl CpuFeatures {
    /// The conservative flag set: no extension at all.
    pub open spec fn spec_none() -> CpuFeatures {
        CpuFeatures {
            fpu: false,
            mmx: false,
            sse: false,
            sse2: false,
            sse3: false,
            ssse3: false,
            sse4_1: false,
            sse4_2: false,
            sse4a: false,
            amd_3dnow: false,
            cmpxchg8b: false,
            fxsr: false,
            xsave: false,
            avx: false,
            avx2: false,
            avx512f: false,
            avx512vnni: false,
            avx_vnni: false,
        }
    }

    pub fn none() -> (r: CpuFeatures)
        ensures
            r == Self::spec_none(),
    {
        CpuFeatures {
            fpu: false,
            mmx: false,
            sse: false,
            sse2: false,
            sse3: false,
            ssse3: false,
            sse4_1: false,
            sse4_2: false,
            sse4a: false,
            amd_3dnow: false,
            cmpxchg8b: false,
            fxsr: false,
            xsave: false,
            avx: false,
            avx2: false,
            avx512f: false,
            avx512vnni: false,
            avx_vnni: false,
        }
    }
}

/// The flag set the three capability leaves describe: each flag from its
/// leaf's bit, FXSR from the FXSAVE/FXRSTOR bit, 3DNow! from either AMD bit,
/// and every flag of a leaf the processor does not report `false`.
pub open spec fn leaf_features(
    standard: Option<StandardLeaf>,
    structured: Option<StructuredLeaf>,
    extended: Option<ExtendedLeaf>,
) -> CpuFeatures {
    CpuFeatures {
        fpu: standard is Some && standard->Some_0.fpu,
        mmx: standard is Some && standard->Some_0.mmx,
        sse: standard is Some && standard->Some_0.sse,
        sse2: standard is Some && standard->Some_0.sse2,
        sse3: standard is Some && standard->Some_0.sse3,
        ssse3: standard is Some && standard->Some_0.ssse3,
        sse4_1: standard is Some && standard->Some_0.sse4_1,
        sse4_2: standard is Some && standard->Some_0.sse4_2,
        cmpxchg8b: standard is Some && standard->Some_0.cmpxchg8b,
        fxsr: standard is Some && standard->Some_0.fxsave_fxstor,
        xsave: standard is Some && standard->Some_0.xsave,
        avx: standard is Some && standard->Some_0.avx,
        avx2: structured is Some && structured->Some_0.avx2,
        avx512f: structured is Some && structured->Some_0.avx512f,
        avx512vnni: structured is Some && structured->Some_0.avx512vnni,
        avx_vnni: structured is Some && structured->Some_0.avx_vnni,
        sse4a: extended is Some && extended->Some_0.sse4a,
        amd_3dnow: extended is Some && (extended->Some_0.amd_3dnow_ext
            || extended->Some_0.amd_3dnow),
    }
}

/// Maps the three capability leaves to the kernel's flag set.
pub fn features_from_leaves(
    standard: Option<StandardLeaf>,
    structured: Option<StructuredLeaf>,
    extended: Option<ExtendedLeaf>,
) -> (r: CpuFeatures)
    ensures
        r == leaf_features(standard, structured, extended),
{
    let mut f = CpuFeatures::none();
    match standard {
        Some(leaf) => {
            f.fpu = leaf.fpu;
            f.mmx = leaf.mmx;
            f.sse = leaf.sse;
            f.sse2 = leaf.sse2;
            f.sse3 = leaf.sse3;
            f.ssse3 = leaf.ssse3;
            f.sse4_1 = leaf.sse4_1;
            f.sse4_2 = leaf.sse4_2;
            f.cmpxchg8b = leaf.cmpxchg8b;
            f.fxsr = leaf.fxsave_fxstor;
            f.xsave = leaf.xsave;
            f.avx = leaf.avx;
        },
        None => {},
    }
    match structured {
        Some(leaf) => {
            f.avx2 = leaf.avx2;
            f.avx512f = leaf.avx512f;
            f.avx512vnni = leaf.avx512vnni;
            f.avx_vnni = leaf.avx_vnni;
        },
        None => {},
    }
    match extended {
        Some(leaf) => {
            f.sse4a = leaf.sse4a;
            f.amd_3dnow = leaf.amd_3dnow_ext || leaf.amd_3dnow;
        },
        None => {},
    }
    f
}

/// The process-wide capability flag set with its init-once lifecycle.
pub struct FeatureRegistry {
    initialized: bool,
    cpuid_supported: bool,
    flags: CpuFeatures,
}

impl FeatureRegistry {
    pub closed spec fn spec_initialized(&self) -> bool {
        self.initialized
    }

    /// Whether capability identification was available when `init` ran.
    pub closed spec fn spec_cpuid_supported(&self) -> bool {
        self.cpuid_supported
    }

    /// The flags as recorded; all `false` until `init`.
    pub closed spec fn spec_flags(&self) -> CpuFeatures {
        self.flags
    }

    /// Flags are recorded only by initialization.
    pub closed spec fn wf(&self) -> bool {
        !self.initialized ==> (self.flags == CpuFeatures::spec_none() && !self.cpuid_supported)
    }

    /// An uninitialized registry: every query answers `false`.
    pub fn new() -> (r: FeatureRegistry)
        ensures
            r.wf(),
            !r.spec_initialized(),
            !r.spec_cpuid_supported(),
            r.spec_flags() == CpuFeatures::spec_none(),
    {
        FeatureRegistry { initialized: false, cpuid_supported: false, flags: CpuFeatures::none() }
    }

    pub fn is_initialized(&self) -> (r: bool)
        ensures
            r == self.spec_initialized(),
    {
        self.initialized
    }

    /// Whether capability identification was available when `init` ran.
    pub fn cpuid_supported(&self) -> (r: bool)
        ensures
            r == self.spec_cpuid_supported(),
    {
        self.cpuid_supported
    }

    /// Records a detection outcome, once. Without identification support the
    /// conservative set is recorded whatever `detected` holds; a registry that
    /// is already initialized stays as it is.
    pub fn install(&mut self, cpuid_supported: bool, detected: CpuFeatures)
        requires
            old(self).wf(),
        ensures
            final(self).wf(),
            final(self).spec_initialized(),
            old(self).spec_initialized() ==> *final(self) == *old(self),
            !old(self).spec_initialized() ==> {
                &&& final(self).spec_cpuid_supported() == cpuid_supported
                &&& final(self).spec_flags() == if cpuid_supported {
                    detected
                } else {
                    CpuFeatures::spec_none()
                }
            },
    {
        if self.initialized {
            return ;
        }
        self.initialized = true;
        self.cpuid_supported = cpuid_supported;
        if cpuid_supported {
            self.flags = detected;
        }
    }

    /// Records the flags the three capability leaves describe, once. Without
    /// identification support the conservative set is recorded whatever the
    /// leaves hold; a registry that is already initialized stays as it is.
    pub fn init_from_leaves(
        &mut self,
        cpuid_supported: bool,
        standard: Option<StandardLeaf>,
        structured: Option<StructuredLeaf>,
        extended: Option<ExtendedLeaf>,
    )
        requires
            old(self).wf(),
        ensures
            final(self).wf(),
            final(self).spec_initialized(),
            old(self).spec_initialized() ==> *final(self) == *old(self),
            !old(self).spec_initialized() ==> {
                &&& final(self).spec_cpuid_supported() == cpuid_supported
                &&& final(self).spec_flags() == if cpuid_supported {
                    leaf_features(standard, structured, extended)
                } else {
                    CpuFeatures::spec_none()
                }
            },
    {
        let detected = features_from_leaves(standard, structured, extended);
        self.install(cpuid_supported, detected);
    }

    /// Boot-time detection. `cpuid_supported` is the outcome of the
    /// identification probe; the capability leaves of the running processor
    /// are queried only when it is `true` and the registry is not yet
    /// initialized, and are recorded by `init_from_leaves`. Which bits the
    /// processor reports is up to the processor: this function states what
    /// holds whatever they are.
    pub fn init(&mut self, cpuid_supported: bool)
        requires
            old(self).wf(),
        ensures
            final(self).wf(),
            final(self).spec_initialized(),
            old(self).spec_initialized() ==> *final(self) == *old(self),
            !old(self).spec_initialized() ==> final(self).spec_cpuid_supported() == cpuid_supported,
            !old(self).spec_initialized() && !cpuid_supported ==> final(self).spec_flags()
                == CpuFeatures::spec_none(),
    {
        if self.initialized || !cpuid_supported {
            self.install(cpuid_supported, CpuFeatures::none());
            return ;
        }
        let standard = standard_feature_leaf();
        let structured = structured_feature_leaf();
        let extended = extended_processor_leaf();
        self.init_from_leaves(cpuid_supported, standard, structured, extended);
    }

    /// Whether the registry reports `bit`: initialized and recorded as present.
    pub open spec fn reports(&self, bit: bool) -> bool {
        self.spec_initialized() && bit
    }
}

pub fn has_fpu(reg: &FeatureRegistry) -> (r: bool)
    ensures
        r == reg.reports(reg.spec_flags().fpu),
{
    reg.initialized && reg.flags.fpu
}

pub fn has_mmx(reg: &FeatureRegistry) -> (r: bool)
    ensures
        r == reg.reports(reg.spec_flags().mmx),
{
    reg.initialized && reg.flags.mmx
}

pub fn has_sse(reg: &FeatureRegistry) -> (r: bool)
    ensures
        r == reg.reports(reg.spec_flags().sse),
{
    reg.initialized && reg.flags.sse
}

pub fn has_sse2(reg: &FeatureRegistry) -> (r: bool)
    ensures
        r == reg.reports(reg.spec_flags().sse2),
{
    reg.initialized && reg.flags.sse2
}

pub fn has_sse3(reg: &FeatureRegistry) -> (r: bool)
    ensures
        r == reg.reports(reg.spec_flags().sse3),
{
    reg.initialized && reg.flags.sse3
}

pub fn has_ssse3(reg: &FeatureRegistry) -> (r: bool)
    ensures
        r == reg.reports(reg.spec_flags().ssse3),
{
    reg.initialized && reg.flags.ssse3
}

pub fn has_sse4_1(reg: &FeatureRegistry) -> (r: bool)
    ensures
        r == reg.reports(reg.spec_flags().sse4_1),
{
    reg.initialized && reg.flags.sse4_1
}

pub fn has_sse4_2(reg: &FeatureRegistry) -> (r: bool)
    ensures
        r == reg.reports(reg.spec_flags().sse4_2),
{
    reg.initialized && reg.flags.sse4_2
}

pub fn has_sse4a(reg: &FeatureRegistry) -> (r: bool)
    ensures
        r == reg.reports(reg.spec_flags().sse4a),
{
    reg.initialized && reg.flags.sse4a
}

pub fn has_3dnow(reg: &FeatureRegistry) -> (r: bool)
    ensures
        r == reg.reports(reg.spec_flags().amd_3dnow),
{
    reg.initialized && reg.flags.amd_3dnow
}

pub fn has_cmpxchg8b(reg: &FeatureRegistry) -> (r: bool)
    ensures
        r == reg.reports(reg.spec_flags().cmpxchg8b),
{
    reg.initialized && reg.flags.cmpxchg8b
}

pub fn has_fxsr(reg: &FeatureRegistry) -> (r: bool)
    ensures
        r == reg.reports(reg.spec_flags().fxsr),
{
    reg.initialized && reg.flags.fxsr
}

pub fn has_xsave(reg: &FeatureRegistry) -> (r: bool)
    ensures
        r == reg.reports(reg.spec_flags().xsave),
{
    reg.initialized && reg.flags.xsave
}

pub fn has_avx(reg: &FeatureRegistry) -> (r: bool)
    ensures
        r == reg.reports(reg.spec_flags().avx),
{
    reg.initialized && reg.flags.avx
}

pub fn has_avx2(reg: &FeatureRegistry) -> (r: bool)
    ensures
        r == reg.reports(reg.spec_flags().avx2),
{
    reg.initialized && reg.flags.avx2
}

pub fn has_avx512f(reg: &FeatureRegistry) -> (r: bool)
    ensures
        r == reg.reports(reg.spec_flags().avx512f),
{
    reg.initialized && reg.flags.avx512f
}

pub fn has_avx512vnni(reg: &FeatureRegistry) -> (r: bool)
    ensures
        r == reg.reports(reg.spec_flags().avx512vnni),
{
    reg.initialized && reg.flags.avx512vnni
}

pub fn has_avx_vnni(reg: &FeatureRegistry) -> (r: bool)
    ensures
        r == reg.reports(reg.spec_flags().avx_vnni),
{
    reg.initialized && reg.flags.avx_vnni
}

/// Processor class as far as the legacy 386 distinction goes.
#[derive(Clone, Copy, Debug, PartialEq, Eq, Structural)]
pub enum CpuVariant {
    /// 386SX: no math coprocessor.
    I386SX,
    /// 386DX with a math coprocessor present.
    I386DX,
    /// Any processor with capability identification.
    Other,
}

pub open spec fn spec_variant(cpuid_supported: bool, fpu_present: bool) -> CpuVariant {
    if cpuid_supported {
        CpuVariant::Other
    } else if fpu_present {
        CpuVariant::I386DX
    } else {
        CpuVariant::I386SX
    }
}

/// Classifies the processor from the identification probe's outcome and the
/// registry's math-unit flag.
pub fn detect_386_variant(cpuid_supported: bool, reg: &FeatureRegistry) -> (r: CpuVariant)
    ensures
        r == spec_variant(cpuid_supported, reg.reports(reg.spec_flags().fpu)),
{
    if cpuid_supported {
        CpuVariant::Other
    } else if has_fpu(reg) {
        CpuVariant::I386DX
    } else {
        CpuVariant::I386SX
    }
}

/// Before initialization the registry reports no extension at all.
pub proof fn lemma_queries_false_before_init(reg: &FeatureRegistry)
    requires
        reg.wf(),
        !reg.spec_initialized(),
    ensures
        reg.spec_flags() == CpuFeatures::spec_none(),
        forall|bit: bool| !#[trigger] reg.reports(bit),
{
}

} // verus!
