//! The key by which the buses tell message types apart: the type's
//! `std::any::TypeId`.

use vstd::prelude::*;

verus! {

#[verifier::external_type_specification]
#[verifier::external_body]
pub struct ExTypeId(std::any::TypeId);

/// Calls `std::any::TypeId::of::<T>()`. Nothing is claimed of the key it
/// returns, not even that two calls for one type give the same key: that
/// would need a name for the key of a type parameter. The logic only
/// compares keys with one another.
#[verifier::external_body]
pub fn type_key<T: ?Sized + 'static>() -> std::any::TypeId {
    std::any::TypeId::of::<T>()
}

/// Calls `==` (`PartialEq::eq`) on two `TypeId`s. The contract claims that
/// it answers `true` exactly when the two keys are the same value, which is
/// what the derived-style equality of `TypeId` compares.
#[verifier::external_body]
pub fn same_key(a: &std::any::TypeId, b: &std::any::TypeId) -> (r: bool)
    ensures
        r == (*a == *b),
{
    *a == *b
}

} // verus!
