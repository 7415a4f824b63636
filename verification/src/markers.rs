//! The capability marker traits of the authoring surface: attached to
//! types that may legally cross the host/device boundary, and to
//! functions accepted as kernels.

use vstd::prelude::*;

verus! {

/// Marker for record types validated as device structs.  The
/// validator's acceptance attaches it; users do not implement it by
/// hand.  A generic kernel parameter receives this capability bound
/// implicitly when the author wrote none.
pub trait DeviceStructMarker {

}

/// Marker for the primitive types a device-struct field may have, and
/// the capability bound attached to a device struct's generic
/// parameters.
pub trait Primitive {

}

impl Primitive for u32 {

}

impl Primitive for i32 {

}

/// Marker for functions accepted as kernels.  Implementations invoke
/// the marked function.
pub trait KernelFn {
    fn execute(&self);
}

} // verus!
