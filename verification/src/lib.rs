//! Verified core of a compiler-invocation rewriter.
//!
//! The crate models compiler command lines as ordered collections of flag
//! records, and rewrites them through a fixed sequence of policy stages
//! (baseline parameters, optimization canonicalization, sanitizer
//! reconciliation, fuzzing-driver substitution, runtime linkage, pass
//! injection and friends) before they are handed to the real compiler.
#![verifier::loop_isolation(false)]

pub mod compiler_option;
pub mod error;
pub mod object;
pub mod option_manager;
pub mod option_visitors;
pub mod pipeline;
pub mod text;
pub mod toolchain;
