//! Floating-point/vector register state: save-area formats, the per-context
//! manager with lazy restore and save, and the control-register settings that
//! bring the unit up.
//!
//! The register transfer itself sits behind `FpuHardware`, a narrow platform
//! boundary: the kernel implements it with the save/restore instructions, and
//! `RegisterFile` implements it in memory so the rest can be exercised
//! anywhere.

use vstd::prelude::*;
use crate::cpu_features::FeatureRegistry;

verus! {

/// Bytes reserved for one saved image: the largest supported format.
pub const FPU_AREA_SIZE: usize = 576;

/// CR0.MP: monitor the coprocessor.
pub const CR0_MP: u32 = 0x2;

/// CR0.EM: emulate the coprocessor.
pub const CR0_EM: u32 = 0x4;

/// CR0.NE: native numeric-error reporting.
pub const CR0_NE: u32 = 0x20;

/// CR4.OSFXSR: the OS uses FXSAVE/FXRSTOR.
pub const CR4_OSFXSR: u32 = 0x200;

/// CR4.OSXMMEXCPT: the OS handles unmasked SIMD floating-point exceptions.
pub const CR4_OSXMMEXCPT: u32 = 0x400;

/// CR4.OSXSAVE: the OS uses XSAVE/XRSTOR.
pub const CR4_OSXSAVE: u32 = 0x40000;

/// On-hardware save-area formats.
#[derive(Clone, Copy, Debug, PartialEq, Eq, Structural)]
pub enum FpuStateFormat {
    /// x87 and MMX state (FSAVE/FRSTOR): 108 bytes.
    FSAVE,
    /// x87, MMX and SSE state (FXSAVE/FXRSTOR): 512 bytes.
    FXSAVE,
    /// The FXSAVE region followed by the 64-byte extended header (XSAVE/XRSTOR).
    XSAVE,
}

/// Bytes of a save area that a format's instructions write and read.
pub open spec fn image_len(format: FpuStateFormat) -> nat {
    match format {
        FpuStateFormat::FSAVE => 108,
        FpuStateFormat::FXSAVE => 512,
        FpuStateFormat::XSAVE => 576,
    }
}

/// The format chosen for a registry: ExtendedWithVector, then Extended, then
/// Basic.
pub open spec fn select_format(features: &FeatureRegistry) -> FpuStateFormat {
    if features.reports(features.spec_flags().xsave) {
        FpuStateFormat::XSAVE
    } else if features.reports(features.spec_flags().fxsr) {
        FpuStateFormat::FXSAVE
    } else {
        FpuStateFormat::FSAVE
    }
}

/// The register file of the floating-point/vector unit, seen through the
/// save-area images its instructions produce.
pub trait FpuHardware {
    /// The unit's state, as the `FPU_AREA_SIZE` bytes a save of the widest
    /// format would write. Implementations that are verified define it; the
    /// default only gives the kernel's instruction-level implementation, which
    /// no proof reaches, something of the right length to inherit.
    open spec fn registers(&self) -> Seq<u8> {
        Seq::new(FPU_AREA_SIZE as nat, |_i: int| 0u8)
    }

    /// Saves the unit's state in `format` into the first bytes of `area`.
    /// The unit's state afterwards is left open (a basic-format save resets
    /// it).
    fn save_image(&mut self, format: FpuStateFormat, area: &mut [u8; FPU_AREA_SIZE])
        requires
            old(self).registers().len() == FPU_AREA_SIZE,
        ensures
            final(self).registers().len() == FPU_AREA_SIZE,
            final(area)@.take(image_len(format) as int) == old(self).registers().take(
                image_len(format) as int,
            ),
            final(area)@.skip(image_len(format) as int) == old(area)@.skip(
                image_len(format) as int,
            ),
    ;

    /// Loads the unit's state from the first bytes of `area`, read in `format`.
    fn restore_image(&mut self, format: FpuStateFormat, area: &[u8; FPU_AREA_SIZE])
        requires
            old(self).registers().len() == FPU_AREA_SIZE,
        ensures
            final(self).registers().len() == FPU_AREA_SIZE,
            final(self).registers().take(image_len(format) as int) == area@.take(
                image_len(format) as int,
            ),
    ;
}

/// A register file held in memory: what a save reads and a restore writes.
pub struct RegisterFile {
    bytes: [u8; FPU_AREA_SIZE],
}

impl RegisterFile {
    pub closed spec fn spec_bytes(&self) -> Seq<u8> {
        self.bytes@
    }

    /// A cleared register file.
    pub fn new() -> (r: RegisterFile)
        ensures
            r.spec_bytes() == Seq::new(FPU_AREA_SIZE as nat, |_i: int| 0u8),
    {
        let r = RegisterFile { bytes: [0u8; FPU_AREA_SIZE] };
        assert(r.spec_bytes() =~= Seq::new(FPU_AREA_SIZE as nat, |_i: int| 0u8));
        r
    }

    /// A register file always holds `FPU_AREA_SIZE` bytes.
    pub proof fn lemma_len(&self)
        ensures
            self.spec_bytes().len() == FPU_AREA_SIZE,
    {
    }

    pub fn get(&self, i: usize) -> (r: u8)
        requires
            i < FPU_AREA_SIZE,
        ensures
            r == self.spec_bytes()[i as int],
    {
        self.bytes[i]
    }

    /// Stands for an instruction that changes one byte of the unit's state.
    pub fn set(&mut self, i: usize, v: u8)
        requires
            i < FPU_AREA_SIZE,
        ensures
            final(self).spec_bytes() == old(self).spec_bytes().update(i as int, v),
    {
        self.bytes[i] = v;
    }
}

impl FpuHardware for RegisterFile {
    open spec fn registers(&self) -> Seq<u8> {
        self.spec_bytes()
    }

    fn save_image(&mut self, format: FpuStateFormat, area: &mut [u8; FPU_AREA_SIZE]) {
        let n = image_len_of(format);
        let mut i: usize = 0;
        while i < n
            invariant
                n == image_len(format),
                n <= FPU_AREA_SIZE,
                i <= n,
                self.bytes@.len() == FPU_AREA_SIZE,
                area@.len() == FPU_AREA_SIZE,
                forall|j: int| 0 <= j < i ==> area@[j] == self.bytes@[j],
                forall|j: int| i <= j < FPU_AREA_SIZE ==> area@[j] == old(area)@[j],
            decreases n - i,
        {
            area[i] = self.bytes[i];
            i = i + 1;
        }
        assert(area@.take(n as int) =~= self.bytes@.take(n as int));
        assert(area@.skip(n as int) =~= old(area)@.skip(n as int));
    }

    fn restore_image(&mut self, format: FpuStateFormat, area: &[u8; FPU_AREA_SIZE]) {
        let n = image_len_of(format);
        let mut i: usize = 0;
        while i < n
            invariant
                n == image_len(format),
                n <= FPU_AREA_SIZE,
                i <= n,
                self.bytes@.len() == FPU_AREA_SIZE,
                area@.len() == FPU_AREA_SIZE,
                forall|j: int| 0 <= j < i ==> self.bytes@[j] == area@[j],
            decreases n - i,
        {
            self.bytes[i] = area[i];
            i = i + 1;
        }
        assert(self.bytes@.take(n as int) =~= area@.take(n as int));
    }
}

/// Bytes of a save area that `format` covers.
pub fn image_len_of(format: FpuStateFormat) -> (r: usize)
    ensures
        r == image_len(format),
        r <= FPU_AREA_SIZE,
{
    match format {
        FpuStateFormat::FSAVE => 108,
        FpuStateFormat::FXSAVE => 512,
        FpuStateFormat::XSAVE => 576,
    }
}

/// A saved register image and the format it is kept in.
pub struct FpuState {
    data: [u8; FPU_AREA_SIZE],
    format: FpuStateFormat,
}

impl FpuState {
    pub closed spec fn spec_image(&self) -> Seq<u8> {
        self.data@
    }

    pub closed spec fn spec_format(&self) -> FpuStateFormat {
        self.format
    }

    /// A cleared image in the best format the registry reports.
    pub fn new(features: &FeatureRegistry) -> (r: FpuState)
        ensures
            r.spec_format() == select_format(features),
            r.spec_image() == Seq::new(FPU_AREA_SIZE as nat, |_i: int| 0u8),
    {
        let mut state = FpuState::default();
        if crate::cpu_features::has_xsave(features) {
            state.format = FpuStateFormat::XSAVE;
        } else if crate::cpu_features::has_fxsr(features) {
            state.format = FpuStateFormat::FXSAVE;
        } else {
            state.format = FpuStateFormat::FSAVE;
        }
        state
    }

    /// Saves the unit's state into the image, in this state's format.
    pub fn save<H: FpuHardware>(&mut self, hw: &mut H)
        requires
            old(hw).registers().len() == FPU_AREA_SIZE,
        ensures
            final(hw).registers().len() == FPU_AREA_SIZE,
            final(self).spec_format() == old(self).spec_format(),
            final(self).spec_image() == old(hw).registers().take(
                image_len(old(self).spec_format()) as int,
            ) + old(self).spec_image().skip(image_len(old(self).spec_format()) as int),
    {
        let format = self.format;
        hw.save_image(format, &mut self.data);
        proof {
            let n = image_len(format) as int;
            assert(self.data@ =~= self.data@.take(n) + self.data@.skip(n));
        }
    }

    /// Loads the image into the unit, in this state's format.
    pub fn restore<H: FpuHardware>(&self, hw: &mut H)
        requires
            old(hw).registers().len() == FPU_AREA_SIZE,
        ensures
            final(hw).registers().len() == FPU_AREA_SIZE,
            final(hw).registers().take(image_len(self.spec_format()) as int) == self.spec_image().take(
                image_len(self.spec_format()) as int,
            ),
    {
        hw.restore_image(self.format, &self.data);
    }

    pub fn is_xsave_format(&self) -> (r: bool)
        ensures
            r == (self.spec_format() == FpuStateFormat::XSAVE),
    {
        self.format == FpuStateFormat::XSAVE
    }
}

impl Default for FpuState {
    /// A cleared image in the basic format.
    fn default() -> (r: FpuState)
        ensures
            r.spec_format() == FpuStateFormat::FSAVE,
            r.spec_image() == Seq::new(FPU_AREA_SIZE as nat, |_i: int| 0u8),
    {
        let r = FpuState { data: [0u8; FPU_AREA_SIZE], format: FpuStateFormat::FSAVE };
        assert(r.spec_image() =~= Seq::new(FPU_AREA_SIZE as nat, |_i: int| 0u8));
        r
    }
}

/// What a manager holds: its image, the image's format, and whether the unit
/// currently holds this context's state.
pub struct FpuContextView {
    pub image: Seq<u8>,
    pub format: FpuStateFormat,
    pub active: bool,
}

impl FpuContextView {
    /// The bytes a restore from this image loads.
    pub open spec fn loaded_image(self) -> Seq<u8> {
        self.image.take(image_len(self.format) as int)
    }

    /// After `begin_use`: active; the image is not touched.
    pub open spec fn after_begin_use(self) -> FpuContextView {
        FpuContextView { active: true, ..self }
    }

    /// After `end_use` with the unit holding `registers`: an active context
    /// saves them into its image and goes idle; an idle one stays as it is.
    pub open spec fn after_end_use(self, registers: Seq<u8>) -> FpuContextView {
        if self.active {
            FpuContextView {
                image: registers.take(image_len(self.format) as int) + self.image.skip(
                    image_len(self.format) as int,
                ),
                format: self.format,
                active: false,
            }
        } else {
            self
        }
    }
}

/// Lazy save/restore of one logical context's register state.
pub struct FpuManager {
    fpu_state: FpuState,
    active: bool,
}

impl View for FpuManager {
    type V = FpuContextView;

    closed spec fn view(&self) -> FpuContextView {
        FpuContextView {
            image: self.fpu_state.spec_image(),
            format: self.fpu_state.spec_format(),
            active: self.active,
        }
    }
}

impl FpuManager {
    /// An idle manager with a cleared image in the best format the registry
    /// reports.
    pub fn new(features: &FeatureRegistry) -> (r: FpuManager)
        ensures
            r@.format == select_format(features),
            r@.image == Seq::new(FPU_AREA_SIZE as nat, |_i: int| 0u8),
            !r@.active,
            r@.image.len() == FPU_AREA_SIZE,
    {
        FpuManager { fpu_state: FpuState::new(features), active: false }
    }

    /// About to run floating-point/vector code: an idle context restores its
    /// image into the unit; an active one does nothing.
    pub fn begin_use<H: FpuHardware>(&mut self, hw: &mut H)
        requires
            old(hw).registers().len() == FPU_AREA_SIZE,
        ensures
            final(hw).registers().len() == FPU_AREA_SIZE,
            final(self)@.image.len() == FPU_AREA_SIZE,
            final(self)@ == old(self)@.after_begin_use(),
            !old(self)@.active ==> final(hw).registers().take(image_len(old(self)@.format) as int)
                == old(self)@.loaded_image(),
            old(self)@.active ==> *final(hw) == *old(hw),
    {
        if !self.active {
            self.fpu_state.restore(hw);
            self.active = true;
        }
    }

    /// Done with the unit for now: an active context saves the unit's state
    /// into its image; an idle one does nothing.
    pub fn end_use<H: FpuHardware>(&mut self, hw: &mut H)
        requires
            old(hw).registers().len() == FPU_AREA_SIZE,
        ensures
            final(hw).registers().len() == FPU_AREA_SIZE,
            final(self)@.image.len() == FPU_AREA_SIZE,
            final(self)@ == old(self)@.after_end_use(old(hw).registers()),
            !old(self)@.active ==> *final(hw) == *old(hw),
    {
        if self.active {
            self.fpu_state.save(hw);
            self.active = false;
        }
    }

    pub fn format(&self) -> (r: FpuStateFormat)
        ensures
            r == self@.format,
    {
        self.fpu_state.format
    }

    pub fn is_active(&self) -> (r: bool)
        ensures
            r == self@.active,
    {
        self.active
    }
}

/// For every format: state the unit held when an active context ended its use
/// is what the context's next `begin_use` loads, bit for bit.
pub proof fn lemma_end_then_begin_restores(ctx: FpuContextView, registers: Seq<u8>)
    requires
        ctx.active,
        ctx.image.len() == FPU_AREA_SIZE,
        registers.len() == FPU_AREA_SIZE,
    ensures
        ctx.after_end_use(registers).loaded_image() == registers.take(image_len(ctx.format) as int),
        !ctx.after_end_use(registers).active,
        ctx.after_end_use(registers).format == ctx.format,
{
    let n = image_len(ctx.format) as int;
    assert(ctx.after_end_use(registers).loaded_image() =~= registers.take(n));
}

/// CR0 for FPU operation: emulation off, coprocessor monitoring and native
/// error reporting on, every other bit kept.
pub fn init_fpu_cr0(cr0: u32) -> (r: u32)
    ensures
        r == (cr0 & !CR0_EM) | CR0_MP | CR0_NE,
        r & CR0_EM == 0,
        r & CR0_MP == CR0_MP,
        r & CR0_NE == CR0_NE,
{
    let r = (cr0 & !CR0_EM) | CR0_MP | CR0_NE;
    assert(((cr0 & !0x4u32) | 0x2u32 | 0x20u32) & 0x4u32 == 0) by (bit_vector);
    assert(((cr0 & !0x4u32) | 0x2u32 | 0x20u32) & 0x2u32 == 0x2u32) by (bit_vector);
    assert(((cr0 & !0x4u32) | 0x2u32 | 0x20u32) & 0x20u32 == 0x20u32) by (bit_vector);
    r
}

/// The CR4 bits a registry calls for: FXSAVE support, SIMD exceptions and
/// XSAVE support, each where the matching extension is reported.
pub open spec fn cr4_bits(features: &FeatureRegistry) -> u32 {
    (if features.reports(features.spec_flags().fxsr) {
        CR4_OSFXSR
    } else {
        0u32
    }) | (if features.reports(features.spec_flags().sse) {
        CR4_OSXMMEXCPT
    } else {
        0u32
    }) | (if features.reports(features.spec_flags().xsave) {
        CR4_OSXSAVE
    } else {
        0u32
    })
}

/// CR4 for FPU operation: the bits the registry calls for set, every other bit
/// kept.
pub fn init_fpu_cr4(cr4: u32, features: &FeatureRegistry) -> (r: u32)
    ensures
        r == cr4 | cr4_bits(features),
{
    let fxsr = if crate::cpu_features::has_fxsr(features) {
        CR4_OSFXSR
    } else {
        0u32
    };
    let simd_exceptions = if crate::cpu_features::has_sse(features) {
        CR4_OSXMMEXCPT
    } else {
        0u32
    };
    let xsave = if crate::cpu_features::has_xsave(features) {
        CR4_OSXSAVE
    } else {
        0u32
    };
    cr4 | (fxsr | simd_exceptions | xsave)
}

} // verus!
