//! The run-time side of type identity: the dynamic type test and the checked
//! casts of `core::any::Any`. Nothing in this file is proved. Each function makes
//! one call into `core::any` and states what that call does in terms of the model
//! in [`crate::identity`].
use crate::identity::{reinterpreted, same_type};
use core::any::Any;
use core::marker::PhantomData;
use vstd::prelude::*;

verus! {

/// Calls `<dyn Any>::is` on the marker of `T`, asking whether it is a marker of
/// `U`. `is` answers `true` exactly when the object's type is the type asked
/// for, and the marker of `T` is the marker of `U` exactly when `T` is `U`: so
/// the answer is taken to be `same_type::<T, U>()`.
#[inline(always)]
#[verifier::external_body]
pub(crate) fn identical<T: 'static, U: 'static>() -> (same: bool)
    ensures
        (same == same_type::<T, U>()),
{
    let marker: &dyn Any = &PhantomData::<T>;
    marker.is::<PhantomData<U>>()
}

/// Calls `<dyn Any>::downcast_ref`. It gives `Some` exactly when the referent's
/// type `T` is `U`, and the reference it then gives points at the referent
/// itself: what it points at is taken to be `*val` reinterpreted.
#[inline(always)]
#[verifier::external_body]
pub(crate) fn downcast_ref<'a, T: 'static, U: 'static>(val: &'a T) -> (found: Option<&'a U>)
    ensures
        (found is Some <==> same_type::<T, U>()),
        found matches Some(out) ==> reinterpreted(*val, *out),
{
    let object: &dyn Any = val;
    object.downcast_ref::<U>()
}

/// Calls `<dyn Any>::downcast_mut`. It gives `Some` exactly when the referent's
/// type `T` is `U`, and the reference it then gives is an exclusive borrow of
/// the referent itself: what it points at is taken to be `*val` reinterpreted,
/// now and when the borrow ends, so that a write through it is a write to
/// `*val`.
#[inline(always)]
#[verifier::external_body]
pub(crate) fn downcast_mut<'a, T: 'static, U: 'static>(val: &'a mut T) -> (found: Option<
    &'a mut U,
>)
    ensures
        (found is Some <==> same_type::<T, U>()),
        found matches Some(out) ==> reinterpreted(*old(val), *out) && reinterpreted(
            *final(val),
            *final(out),
        ),
{
    let object: &mut dyn Any = val;
    object.downcast_mut::<U>()
}

/// Calls `<dyn Any>::downcast_mut` on a slot that may hold a `T`, asking for a
/// slot that may hold a `U`. The two slot types are one type exactly when `T` is
/// `U`, so it gives `Some` exactly then. The slot it gives is the slot it was
/// given: full if and only if that one was, and what it holds is taken to be
/// what that one held, reinterpreted.
#[inline(always)]
#[verifier::external_body]
pub(crate) fn downcast_slot<'a, T: 'static, U: 'static>(slot: &'a mut Option<T>) -> (found: Option<
    &'a mut Option<U>,
>)
    ensures
        (found is Some <==> same_type::<T, U>()),
        found matches Some(target) ==> match (*old(slot), *target) {
            (Some(x), Some(out)) => reinterpreted(x, out),
            (None, None) => true,
            _ => false,
        },
{
    let object: &mut dyn Any = slot;
    object.downcast_mut::<Option<U>>()
}

} // verus!
