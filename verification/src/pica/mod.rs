//! The PICA200 GPU.
//!
//! A software pipeline that is the reference for every other renderer. It works
//! on plain byte slices of VRAM and FCRAM and has no dependency on the machine.
//!
//! So far: the transfer engine, the shader unit and the command processor.

pub mod arith;
pub mod command;
pub mod shader;
pub mod transfer;
