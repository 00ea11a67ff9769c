//! Decoding of programmed GAL16V8 fuse maps into an algebraic model of the
//! device, and rendering of that model as an HDL module.
pub mod emit;
pub mod gal16v8;
