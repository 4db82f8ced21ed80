//! Type markers.
use core::marker::PhantomData;
use vstd::prelude::*;

verus! {

/// A value that stands for the type `T` and carries nothing else. Only
/// `PhantomData<T>` is one.
pub trait Phantom<T> {

}

impl<T> Phantom<T> for PhantomData<T> {

}

} // verus!
