//! A small GPU-compute kernel pipeline: host types are classified for
//! device-boundary validity, kernel signatures and device structs are
//! validated with accumulated diagnostics, a restricted kernel-body
//! expression subset is compiled into a portable bytecode module, and a
//! backend turns a module plus input buffers into a completed dispatch.

pub mod types;
pub mod diag;
pub mod signature;
pub mod structs;
pub mod device;
pub mod ast;
pub mod bytecode;
pub mod compile;
pub mod machine;
pub mod correctness;
pub mod linear;
pub mod markers;
pub mod vulkan;
