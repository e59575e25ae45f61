//! Hardware-capability-adaptive runtime layer of a small kernel: processor
//! feature detection, FPU/vector register-state management, capability
//! dispatched bulk memory and string primitives, and lock protocols.

pub mod cpu_features;
pub mod simd_string;
pub mod simd_mem;
pub mod fpu_state;
pub mod simd_integration;
pub mod primitives;
pub mod ticket_lock;
