//! Reinterpretation of a value of a generic type `T` as a value of a concrete
//! type `U`, where the two turn out to be the same type, and the choice among
//! several such `U` in order.
//!
//! A generic function can ask whether its `T` is some type it knows, and go on
//! with the value under that type, owned, borrowed or mutably borrowed as it
//! was:
//!
//! ```text
//! match cismute::owned::<T, i32>(x) {
//!     Ok(n) => /* x was an i32: here it is */,
//!     Err(x) => /* it was not: here it is back */,
//! }
//! ```
//!
//! Nothing is copied or converted, and on a mismatch the value comes back as it
//! was given. [`owned`], [`reference`] and [`mutable`] do this for the three
//! ways of holding a value, and [`value`] for all three.
//!
//! [`switch`] tries several types in order, each with a handler for the value
//! under that type, and calls the first handler whose type is the value's. The
//! handlers come as a list, written `(f, (g, (h, ())))`:
//!
//! ```text
//! cismute::switch(x, (|n: i32| n.to_string(), (|c: char| c.to_string(), ())))
//! ```
//!
//! What the functions promise is stated over the model of [`identity`], in
//! which `same_type::<T, U>()` says that two type parameters name one type and
//! `reinterpreted(x, out)` that two values of such types are one value. The
//! laws that follow from the contracts are the `lemma_` functions here, in
//! [`identity`] and in [`branches`].
use vstd::prelude::*;

pub use core::marker::PhantomData as Pair;

pub mod branches;
pub mod carrier;
mod downcast;
pub mod identity;
mod seal;

pub use carrier::Cismutable;
use branches::Branches;
use seal::Phantom;

use downcast::{downcast_mut, identical};
use identity::{reinterpreted, same_type};

verus! {

/// What [`value`] returns on `val`: with `Ok`, `val` reinterpreted, exactly when
/// `T` and `U` are the same type; otherwise `val` itself, with `Err`.
pub open spec fn cismuted<'a, T: 'static, U: 'static, RefT: Cismutable<'a, T, U, RefU>, RefU>(
    val: RefT,
    r: Result<RefU, RefT>,
) -> bool {
    match r {
        Ok(out) => same_type::<T, U>() && val.renamed(out),
        Err(back) => !same_type::<T, U>() && back == val,
    }
}

/// What [`mutable`] returns on a reference whose referent is `now` and will be
/// `later` when the borrow ends. A reference stands here as the pair of what it
/// points at now and what it will point at when it ends. With `Ok`, the
/// referent reinterpreted, now and later, exactly when `T` and `U` are the same
/// type; otherwise the reference itself, with `Err`.
pub open spec fn cismuted_in_place<T: 'static, U: 'static>(
    now: T,
    later: T,
    r: Result<(U, U), (T, T)>,
) -> bool {
    match r {
        Ok((out_now, out_later)) => {
            &&& same_type::<T, U>()
            &&& reinterpreted(now, out_now)
            &&& reinterpreted(later, out_later)
        },
        Err(back) => !same_type::<T, U>() && back == (now, later),
    }
}

/// Reinterprets an owned `T` as a `U` if they are the same type, and gives the
/// value back if they are not.
#[inline(always)]
pub fn owned<T, U>(val: T) -> (r: Result<U, T>) where T: 'static, U: 'static
    ensures
        cismuted::<'static, T, U, T, U>(val, r),
{
    value(val)
}

/// Reinterprets a reference to a `T` as a reference to a `U` if they are the
/// same type, and gives the reference back if they are not.
#[inline(always)]
pub fn reference<'a, T, U>(val: &'a T) -> (r: Result<&'a U, &'a T>) where T: 'static, U: 'static
    ensures
        cismuted::<'a, T, U, &'a T, &'a U>(val, r),
{
    value::<'a, T, U, _, _>(val)
}

/// Reinterprets a mutable reference to a `T` as a mutable reference to a `U` if
/// they are the same type, and gives the reference back if they are not. What
/// is written through the reference that comes out, whichever it is, is
/// written to the referent of `val`.
///
/// This is [`value`] on a `&mut T`, written out: the contract here speaks of
/// the referent at the end of the borrow too, which the contract of [`value`],
/// stated for all carriers at once, does not.
#[inline(always)]
pub fn mutable<'a, T, U>(val: &'a mut T) -> (r: Result<&'a mut U, &'a mut T>) where
    T: 'static,
    U: 'static,

    ensures
        cismuted_in_place(
            *old(val),
            *final(val),
            match r {
                Ok(out) => Ok((*out, *final(out))),
                Err(back) => Err((*back, *final(back))),
            },
        ),
{
    if identical::<T, U>() {
        Ok(downcast_mut::<T, U>(val).unwrap())
    } else {
        Err(val)
    }
}

/// Reinterprets a carrier of a `T` (a `T`, a `&T` or a `&mut T`) as the carrier
/// of the same shape of a `U` if `T` and `U` are the same type, and gives the
/// carrier back if they are not. The decision is made here and nowhere else:
/// the types are compared, and the value is looked at only once they agree.
#[inline(always)]
pub fn value<'a, T, U, RefT, RefU>(val: RefT) -> (r: Result<RefU, RefT>) where
    T: 'static,
    U: 'static,
    RefT: Cismutable<'a, T, U, RefU>,

    ensures
        cismuted(val, r),
{
    if identical::<T, U>() {
        Ok(val.reinterpret())
    } else {
        Err(val)
    }
}

/// As [`value`], with `T` and `U` given by a marker of the pair `(T, U)`, for
/// where they cannot be inferred and are tedious to spell out.
#[inline(always)]
pub fn value_with<'a, T, U, P, RefT, RefU>(_marker: P, val: RefT) -> (r: Result<RefU, RefT>) where
    T: 'static,
    U: 'static,
    RefT: Cismutable<'a, T, U, RefU>,
    P: Phantom<(T, U)>,

    ensures
        cismuted(val, r),
{
    value::<T, U, RefT, RefU>(val)
}

/// Gives `val` to the first of `branches` whose target type is the type `T`
/// that `val` carries, and returns its result with `Ok`; gives `val` back with
/// `Err` if there is no such branch. The handler that is called must accept
/// `val`; a handler without a precondition accepts everything.
#[inline(always)]
pub fn switch<R, T, RefT, Args, Tuple>(val: RefT, branches: Tuple) -> (r: Result<R, RefT>) where
    Tuple: Branches<R, T, RefT, Args>,

    requires
        branches.accepts(val),
    ensures
        branches.outcome(val, r),
        r is Ok <==> branches.handles(),
        r matches Err(back) ==> back == val,
{
    branches.dispatch(val)
}

/// Returns `branches`, as a list for carriers of the type `T` that the marker
/// names. [`switch`] needs this where `T` cannot be inferred: with references.
#[inline(always)]
pub fn from<R, T, P, RefT, Args, Tuple>(_marker: P, branches: Tuple) -> (pinned: impl Branches<
    R,
    T,
    RefT,
    Args,
>) where P: Phantom<T>, Tuple: Branches<R, T, RefT, Args>
    ensures
        pinned.handles() == branches.handles(),
        forall|val: RefT| #[trigger] pinned.accepts(val) == branches.accepts(val),
        forall|val: RefT, r: Result<R, RefT>| #[trigger]
            pinned.outcome(val, r) == branches.outcome(val, r),
{
    branches
}

/// Identity round trip, owned: with `T` itself for `U`, the value comes out as
/// it went in.
pub proof fn lemma_owned_round_trip<T: 'static>(val: T, r: Result<T, T>)
    requires
        cismuted::<'static, T, T, T, T>(val, r),
    ensures
        r == Ok::<T, T>(val),
{
}

/// Identity round trip, borrowed: with `T` itself for `U`, the reference comes
/// out as it went in.
pub proof fn lemma_reference_round_trip<'a, T: 'static>(val: &'a T, r: Result<&'a T, &'a T>)
    requires
        cismuted::<'a, T, T, &'a T, &'a T>(val, r),
    ensures
        r == Ok::<&'a T, &'a T>(val),
{
}

/// Identity round trip, mutably borrowed: with `T` itself for `U`, the
/// reference that comes out points at what the one that went in points at, now
/// and when it ends.
pub proof fn lemma_mutable_round_trip<T: 'static>(now: T, later: T, r: Result<(T, T), (T, T)>)
    requires
        cismuted_in_place(now, later, r),
    ensures
        r == Ok::<(T, T), (T, T)>((now, later)),
{
}

/// A mismatch is a no-op: where `T` and `U` are not the same type, the carrier,
/// of whatever shape, comes back as it was given.
pub proof fn lemma_mismatch_gives_back<'a, T, U, RefT, RefU>(val: RefT, r: Result<RefU, RefT>) where
    T: 'static,
    U: 'static,
    RefT: Cismutable<'a, T, U, RefU>,

    requires
        !same_type::<T, U>(),
        cismuted(val, r),
    ensures
        r == Err::<RefU, RefT>(val),
{
}

/// A mismatch is a no-op, mutably borrowed: where `T` and `U` are not the same
/// type, the reference comes back, and points at what it pointed at.
pub proof fn lemma_mutable_mismatch_gives_back<T: 'static, U: 'static>(
    now: T,
    later: T,
    r: Result<(U, U), (T, T)>,
)
    requires
        !same_type::<T, U>(),
        cismuted_in_place(now, later, r),
    ensures
        r == Err::<(U, U), (T, T)>((now, later)),
{
}

/// Success is owed exactly where the types agree, whatever the carrier and
/// whatever it carries.
pub proof fn lemma_success_is_by_type<'a, T, U, RefT, RefU>(val: RefT, r: Result<RefU, RefT>) where
    T: 'static,
    U: 'static,
    RefT: Cismutable<'a, T, U, RefU>,

    requires
        cismuted(val, r),
    ensures
        r is Ok <==> same_type::<T, U>(),
{
}

} // verus!
