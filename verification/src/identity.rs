//! Type identity, and what it means for two values of differently named types
//! to be one and the same.
//!
//! Verus has no notion of "the type `T` is the type `U`" for two type
//! parameters, and no way to compare a `T` with a `U`. Both are modelled here
//! through erasure: every `'static` value can be looked at as a `dyn Erased`
//! object, which stands for the value together with the type it was made from.
//! Two values are the same object exactly when their erasures are equal, and two
//! types are the same type exactly when the erasures of their markers are.
use core::marker::PhantomData;
use vstd::prelude::*;

verus! {

/// What is left of a value once its static type is forgotten. Every `'static`
/// type has it; it has no methods and exists for specifications only.
pub trait Erased {

}

impl<C: 'static> Erased for C {

}

/// `x` without its static type: the object that `x` is.
pub open spec fn erase<C: 'static>(x: &C) -> &dyn Erased {
    x
}

/// The identity token of `T`: its marker, erased. It can be compared for
/// equality and nothing else.
pub open spec fn token<T: 'static>() -> &'static dyn Erased {
    erase(&PhantomData::<T>)
}

/// `T` and `U` are one type under two names.
pub open spec fn same_type<T: 'static, U: 'static>() -> bool {
    token::<T>() == token::<U>()
}

/// `x` and `out` are the same object.
pub open spec fn same_object<T: 'static, U: 'static>(x: T, out: U) -> bool {
    erase(&x) == erase(&out)
}

/// `out` is `x` under the type name `U`: the same object, and the only `U`
/// that is.
pub open spec fn reinterpreted<T: 'static, U: 'static>(x: T, out: U) -> bool {
    &&& same_object(x, out)
    &&& forall|other: U| #[trigger] erase(&other) == erase(&x) ==> other == out
}

/// Every type is itself.
pub proof fn lemma_same_type_reflexive<T: 'static>()
    ensures
        same_type::<T, T>(),
{
}

/// Type identity does not depend on the order of the two names.
pub proof fn lemma_same_type_symmetric<T: 'static, U: 'static>()
    ensures
        same_type::<T, U>() == same_type::<U, T>(),
{
}

/// Two names for the type of a third name are names for one type.
pub proof fn lemma_same_type_transitive<T: 'static, U: 'static, V: 'static>()
    requires
        same_type::<T, U>(),
        same_type::<U, V>(),
    ensures
        same_type::<T, V>(),
{
}

/// Reinterpreting under the same name changes nothing: what comes out is the
/// value that went in.
pub proof fn lemma_reinterpreted_at_one_type<T: 'static>(x: T, out: T)
    requires
        reinterpreted(x, out),
    ensures
        out == x,
{
}

/// A value has at most one reinterpretation under a given name.
pub proof fn lemma_reinterpreted_unique<T: 'static, U: 'static>(x: T, first: U, second: U)
    requires
        reinterpreted(x, first),
        reinterpreted(x, second),
    ensures
        first == second,
{
}

/// Reinterpreting there and back again gives the value one started with.
pub proof fn lemma_reinterpreted_round_trip<T: 'static, U: 'static>(x: T, out: U, back: T)
    requires
        reinterpreted(x, out),
        reinterpreted(out, back),
    ensures
        back == x,
{
}

} // verus!
