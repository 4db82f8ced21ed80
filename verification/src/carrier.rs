//! The three shapes in which a value can be carried, and the raw
//! reinterpretation of each.
use crate::downcast::{downcast_mut, downcast_ref, downcast_slot};
use crate::identity::{reinterpreted, same_type};
use vstd::prelude::*;

verus! {

/// A carrier of a `T` that can be reinterpreted as the carrier `RefU` of a `U`
/// when `T` and `U` are the same type. A carrier is an owned value, a shared
/// reference or an exclusive reference, and `RefU` is always of the shape of
/// `Self`: the three impls below are the whole relation.
pub trait Cismutable<'a, T: 'static, U: 'static, RefU>: Sized {
    /// `out` carries the object that `self` carries.
    spec fn renamed(self, out: RefU) -> bool;

    /// Replaces the type name `T` of the carrier by `U`. Nothing is copied or
    /// converted.
    fn reinterpret(self) -> (out: RefU)
        requires
            same_type::<T, U>(),
        ensures
            self.renamed(out),
    ;
}

/// Owned stays owned. The value goes through a slot on the stack, out of which
/// it is taken under its other name: it is moved, never copied, and the slot is
/// empty when it is dropped.
impl<T: 'static, U: 'static> Cismutable<'static, T, U, U> for T {
    open spec fn renamed(self, out: U) -> bool {
        reinterpreted(self, out)
    }

    #[inline(always)]
    fn reinterpret(self) -> (out: U) {
        let mut slot = Some(self);
        downcast_slot::<T, U>(&mut slot).unwrap().take().unwrap()
    }
}

/// A shared reference stays a shared reference, to the same referent.
impl<'a, T: 'static, U: 'static> Cismutable<'a, T, U, &'a U> for &'a T {
    open spec fn renamed(self, out: &'a U) -> bool {
        reinterpreted(*self, *out)
    }

    #[inline(always)]
    fn reinterpret(self) -> (out: &'a U) {
        downcast_ref::<T, U>(self).unwrap()
    }
}

/// An exclusive reference stays an exclusive reference, to the same referent.
/// `renamed` speaks of the referent as it is when the reference is handed over;
/// what it will be when the borrow ends is stated by `mutable`, which a
/// specification function cannot do.
impl<'a, T: 'static, U: 'static> Cismutable<'a, T, U, &'a mut U> for &'a mut T {
    open spec fn renamed(self, out: &'a mut U) -> bool {
        reinterpreted(*self, *out)
    }

    #[inline(always)]
    fn reinterpret(self) -> (out: &'a mut U) {
        downcast_mut::<T, U>(self).unwrap()
    }
}

} // verus!
