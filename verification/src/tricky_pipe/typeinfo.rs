//! Tells types apart at run time.
use vstd::prelude::*;

verus! {

/// `core::any::TypeId`, the identifier of a type.
#[verifier::external_type_specification]
#[verifier::external_body]
pub struct ExTypeId(core::any::TypeId);

/// `core::any::TypeId::of`. Which identifier belongs to which type is not stated.
pub assume_specification<T: ?Sized + 'static>[ core::any::TypeId::of::<T> ]() -> (r:
    core::any::TypeId)
;

/// The identifier of type `T`: what `core::any::TypeId::of` returns for it.
pub open spec fn id_of<T: 'static>() -> core::any::TypeId {
    choose|id: core::any::TypeId| call_ensures(core::any::TypeId::of::<T>, (), id)
}

/// Calls `core::any::TypeId::of`: each type has one identifier.
#[verifier::external_body]
fn type_id<T: 'static>() -> (r: core::any::TypeId)
    ensures
        r == id_of::<T>(),
{
    core::any::TypeId::of::<T>()
}

/// Compares two `core::any::TypeId`s with `==`: whether they are the same.
#[verifier::external_body]
fn same_id(a: &core::any::TypeId, b: &core::any::TypeId) -> (r: bool)
    ensures
        r == (*a == *b),
{
    a == b
}

/// What is known at run time of a type.
pub struct TypeInfo {
    id: core::any::TypeId,
    name: &'static str,
}

impl TypeInfo {
    /// The identifier of the type.
    pub closed spec fn spec_id(self) -> core::any::TypeId {
        self.id
    }

    /// The description of the type.
    pub closed spec fn spec_name(self) -> Seq<char> {
        self.name@
    }

    /// What is known of type `T`, described as `name`.
    pub fn of<T: 'static>(name: &'static str) -> (r: TypeInfo)
        ensures
            r.spec_id() == id_of::<T>(),
            r.spec_name() == name@,
    {
        TypeInfo { id: type_id::<T>(), name }
    }

    /// Whether the type is `T`, as far as the identifiers of types tell.
    pub fn matches<T: 'static>(&self) -> (r: bool)
        ensures
            r == (self.spec_id() == id_of::<T>()),
    {
        same_id(&self.id, &type_id::<T>())
    }

    /// The identifier of the type.
    pub fn id(&self) -> (r: core::any::TypeId)
        ensures
            r == self.spec_id(),
    {
        self.id
    }

    /// The description of the type.
    pub fn name(&self) -> (r: &'static str)
        ensures
            r@ == self.spec_name(),
    {
        self.name
    }

    /// The same knowledge of the same type.
    pub fn copy(&self) -> (r: TypeInfo)
        ensures
            r == *self,
    {
        TypeInfo { id: self.id, name: self.name }
    }
}

} // verus!
