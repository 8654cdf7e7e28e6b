//! Software floating point over integers.
//!
//! CrabBoy's emulation path is integer-only so that every host produces the
//! same frames. The 3DS has two floating-point units; the one modelled here is
//! IEEE-754 single and double precision with the VFPv2 controls of the ARM11:
//! rounding mode, flush-to-zero, default NaN and the cumulative exception
//! flags. NaN propagation and tininess detection (before rounding) follow the
//! ARM rules.

pub mod convert;
pub mod exact;
pub mod float;
pub mod ieee;
pub mod laws;
pub mod ops;

pub use crate::softfloat::float::{F32, F64};
pub use crate::softfloat::ieee::{Env, Flags, Round};
