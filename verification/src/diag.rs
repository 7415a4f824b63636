//! The two-tier error taxonomy: author-time diagnostics (accumulated,
//! never short-circuited) and runtime dispatch errors.

use vstd::prelude::*;
use crate::types::DeviceType;

verus! {

/// The two control parameters every kernel signature must declare.
#[derive(Clone, Copy, Debug, PartialEq, Eq, Structural)]
pub enum ControlParam {
    /// `num_thread_blocks: u32`, the workgroup count of a dispatch.
    ThreadBlockCount,
    /// `thread_block_size: u32`, the per-group invocation count.
    ThreadBlockSize,
}

/// An author-time diagnostic.  A declaration with any diagnostic is
/// rejected whole; the validators report every problem together.
#[derive(Debug, PartialEq, Eq)]
pub enum Diagnostic {
    /// A required control parameter is absent from the signature.
    MissingControlParam(ControlParam),
    /// A kernel parameter's type may not cross the host/device boundary.
    InvalidArgumentType { name: String, ty: DeviceType },
    /// A device-struct field's type may not cross the boundary.
    InvalidFieldType { struct_name: String, field_name: String, ty: DeviceType },
}

/// The kind of kernel-body construct that lies outside the compilable
/// subset.
#[derive(Clone, Copy, Debug, PartialEq, Eq, Structural)]
pub enum UnsupportedKind {
    /// A call into host code (this also covers recursion: a kernel may
    /// not call itself).
    HostCall,
    /// A heap allocation; kernels may not allocate.
    HeapAllocation,
    /// A loop whose bound is not a compile-time constant.
    DynamicLoop,
    /// A reference to a device argument ordinal the signature does not
    /// declare.
    UnknownArgument,
}

/// A kernel-body compilation failure.  No partial module accompanies it.
#[derive(Clone, Copy, Debug, PartialEq, Eq, Structural)]
pub enum CompileError {
    /// The body contains a construct outside the supported subset; the
    /// first offending construct in source order is named, with its
    /// source location.
    UnsupportedExpression { kind: UnsupportedKind, location: u32 },
}

/// A runtime dispatch failure, returned as an explicit outcome of `run`;
/// re-dispatch requires an explicit new call.
#[derive(Clone, Copy, Debug, PartialEq, Eq, Structural)]
pub enum RuntimeError {
    /// No enumerated physical device offers the required extensions and
    /// a compute-capable queue family.
    NoSuitableDevice,
    /// Creating the logical device or its queue failed.
    DeviceInitFailed,
    /// Building a pipeline from the module's entry point failed.
    PipelineCreationFailed,
    /// Recording or submitting the command sequence failed.
    SubmissionFailed,
    /// The bounded wait on the completion signal elapsed before the
    /// dispatch finished.
    Timeout,
}

} // verus!
