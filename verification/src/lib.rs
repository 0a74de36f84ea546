//! A compiler for a small unit-aware machining script language that emits
//! modally minimal G-code for a CNC mill.
//!
//! Scripts describe cuts (drilling, line contours, circular and rectangular
//! pockets), measurements with physical units, material presets, loops and
//! variables.  The compiler parses the script, interprets it against a single
//! global environment, and writes the minimal sequence of machine
//! instructions that realizes it.
//!
//! All numeric work is done over exact rationals, so every unit conversion
//! and every emitted coordinate is stated and proved exactly.

pub mod ast;
pub mod binder;
pub mod builtins;
pub mod engine;
pub mod env;
pub mod err;
pub mod fmt;
pub mod gcode;
pub mod laws;
pub mod numbers;
pub mod parser;
pub mod paths;
pub mod rat;
pub mod value;
