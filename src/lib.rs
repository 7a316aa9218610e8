//! A granular pitch shifter on fixed-point audio.
//!
//! Samples are signed integers. Fractional quantities (read offsets, speeds,
//! envelope gains) are Q16 fixed-point numbers, where `ONE` stands for 1.0, and
//! phases are fractions of a full cycle of `CYCLE` steps.
use vstd::prelude::*;

pub mod fixed;
pub mod delay_line;
pub mod phasor;
pub mod delta;
pub mod grain;
pub mod grains;

