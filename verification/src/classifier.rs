//! The type classifier: a total, pure predicate deciding whether a
//! resolved type is a machine integer.

use vstd::prelude::*;

use crate::tree::TypeDescriptor;

verus! {

/// A type is integral exactly when it is a signed or unsigned
/// fixed-width or platform-width machine integer. Booleans, enum types
/// (integer-backed or not) and everything unrecognized are not.
pub open spec fn is_integral(ty: TypeDescriptor) -> bool {
    match ty {
        TypeDescriptor::SignedInteger(_) => true,
        TypeDescriptor::UnsignedInteger(_) => true,
        TypeDescriptor::Boolean => false,
        TypeDescriptor::EnumBacked(_) => false,
        TypeDescriptor::Other => false,
    }
}

/// Check if the given type is an integral type.
pub fn is_integral_type(ty: TypeDescriptor) -> (r: bool)
    ensures
        r == is_integral(ty),
{
    match ty {
        TypeDescriptor::SignedInteger(_) => true,
        TypeDescriptor::UnsignedInteger(_) => true,
        TypeDescriptor::Boolean => false,
        TypeDescriptor::EnumBacked(_) => false,
        TypeDescriptor::Other => false,
    }
}

} // verus!
