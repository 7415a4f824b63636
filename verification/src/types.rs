//! The device type model and the type classifier: which host types may
//! appear at the host/device boundary.

use vstd::prelude::*;

verus! {

/// Structural description of a host type as seen at the host/device
/// boundary.  Every leaf reachable by unwrapping `Array` layers must be a
/// primitive or a capability-bound generic for the type to be valid.
#[derive(Debug, PartialEq, Eq)]
pub enum DeviceType {
    /// The 32-bit unsigned integer primitive.
    U32,
    /// The 32-bit signed integer primitive.
    I32,
    /// The 32-bit floating point primitive.
    F32,
    /// An array whose elements all have the given type.
    Array(Box<DeviceType>),
    /// A concrete named host type that is not one of the allowed
    /// primitives (a struct, or a scalar outside the allowed set).
    /// Such a type may cross the boundary only through a
    /// capability-bound generic parameter.
    Named(String),
    /// A reference to a generic type parameter of the surrounding
    /// declaration, by name.
    Generic(String),
}

impl DeviceType {
    /// Structural copy; `String` leaves are cloned, so the copy is equal
    /// to the original.
    pub fn deep_copy(&self) -> (r: DeviceType)
        ensures
            r == *self,
        decreases *self,
    {
        match self {
            DeviceType::U32 => DeviceType::U32,
            DeviceType::I32 => DeviceType::I32,
            DeviceType::F32 => DeviceType::F32,
            DeviceType::Array(elem) => DeviceType::Array(Box::new(elem.deep_copy())),
            DeviceType::Named(s) => DeviceType::Named(s.clone()),
            DeviceType::Generic(s) => DeviceType::Generic(s.clone()),
        }
    }
}

/// The set of names denoted by a list of generic-parameter names.
pub open spec fn name_set(names: Seq<String>) -> Set<Seq<char>> {
    Set::new(|n: Seq<char>| exists|i: int| 0 <= i < names.len() && names[i]@ == n)
}

/// The classifier's decision: a type is valid at the boundary iff it is
/// one of the three allowed primitives, an array of a valid type, or a
/// generic parameter that carries the required capability in this
/// context (`bindings` is the set of such generics).
pub open spec fn spec_valid_type(t: DeviceType, bindings: Set<Seq<char>>) -> bool
    decreases t,
{
    match t {
        DeviceType::U32 => true,
        DeviceType::I32 => true,
        DeviceType::F32 => true,
        DeviceType::Array(elem) => spec_valid_type(*elem, bindings),
        DeviceType::Named(_) => false,
        DeviceType::Generic(name) => bindings.contains(name@),
    }
}

/// Whether `name` occurs in the list of generic-parameter names.
pub fn contains_name(names: &Vec<String>, name: &String) -> (r: bool)
    ensures
        r == name_set(names@).contains(name@),
{
    let mut i: usize = 0;
    while i < names.len()
        invariant
            i <= names.len(),
            forall|j: int| 0 <= j < i ==> names@[j]@ != name@,
        decreases names.len() - i,
    {
        if names[i] == *name {
            assert(name_set(names@).contains(name@));
            return true;
        }
        i += 1;
    }
    assert(!name_set(names@).contains(name@));
    false
}

/// The type classifier: decides whether a host type may appear at the
/// host/device boundary, given the generic parameters known to carry the
/// required capability.
pub fn is_valid_type(ty: &DeviceType, generic_param_set: &Vec<String>) -> (r: bool)
    ensures
        r == spec_valid_type(*ty, name_set(generic_param_set@)),
    decreases *ty,
{
    match ty {
        DeviceType::U32 => true,
        DeviceType::I32 => true,
        DeviceType::F32 => true,
        DeviceType::Array(elem) => is_valid_type(elem, generic_param_set),
        DeviceType::Named(_) => false,
        DeviceType::Generic(name) => contains_name(generic_param_set, name),
    }
}

/// Whether a type is exactly the `u32` primitive (the required type of
/// the two control parameters).
pub fn is_u32(ty: &DeviceType) -> (r: bool)
    ensures
        r == (*ty is U32),
{
    match ty {
        DeviceType::U32 => true,
        _ => false,
    }
}

} // verus!
