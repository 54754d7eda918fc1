//! An Intcode virtual machine: a flat, mutable array of signed 64-bit
//! integers is simultaneously code and data, interpreted by a
//! fetch-decode-execute loop with three parameter addressing modes, an
//! auto-growing zero-filled memory, and a relative-base register.
//!
//! The machine itself lives in [`machine`]; its mathematical model — the
//! small-step semantics every method is proved against — lives in
//! [`semantics`]; the textual program format (comma-separated integers)
//! is handled in [`parse`].
pub mod machine;
pub mod parse;
pub mod semantics;
