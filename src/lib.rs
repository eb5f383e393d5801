//! A CHIP-8 virtual machine whose behaviour is stated as contracts over a
//! mathematical model of the machine and proved with Verus.

pub mod error;
pub mod stack;
pub mod font;
pub mod machine;
pub mod emu;
pub mod laws;
