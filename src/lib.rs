//! An interpreter for a small language that describes music and compiles
//! it to a Standard MIDI File: semantic analysis, evaluation, and a
//! scheduler that turns tracks into timed note events.
pub mod ast;
pub mod error;
pub mod value;
pub mod schedule;
pub mod plan;
pub mod sem;
pub mod interpret;
pub mod score;
pub mod semantic;
pub mod midi;
pub mod laws;
