//! Small family pattern implementation.
//!
//! The family pattern implements "associated type constructors": a family names a type that is
//! generic over a lifetime, and each of its members is that type at one lifetime.
use vstd::prelude::*;

verus! {

/// Family pattern family interface.
pub trait Family: 'static {
    type Member<'a>;
}

/// Family pattern member interface.
pub trait Member {
    type Family: Family;
}

/// Marker newtype for a specific family's member.
///
/// Since members can be part of multiple families, this marker restricts to just one family.
pub struct FamilyMember<'a, F: Family>(pub F::Member<'a>);

/// Generic family type for families of static members, where every member is the same.
pub struct FamilyT<T> {
    _t: core::marker::PhantomData<T>,
}

impl<T: 'static> Family for FamilyT<T> {
    type Member<'a> = MemberT<T>;
}

/// Newtype wrapper for static members that don't themselves implement `Member`.
pub struct MemberT<T>(pub T);

impl<T: 'static> Member for MemberT<T> {
    type Family = FamilyT<T>;
}

impl<T> From<T> for MemberT<T> {
    fn from(value: T) -> (r: Self) {
        MemberT(value)
    }
}

impl<T> vstd::std_specs::convert::FromSpecImpl<T> for MemberT<T> {
    open spec fn obeys_from_spec() -> bool {
        true
    }

    open spec fn from_spec(v: T) -> Self {
        MemberT(v)
    }
}

} // verus!
