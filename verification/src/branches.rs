//! Ordered lists of handlers, and the choice of the first whose argument type
//! is the type at hand.
//!
//! A list is either `()`, which holds no branch, or a pair `(handler, rest)` of
//! a first branch and the list of those that follow: `(f, (g, (h, ())))` tries
//! `f`, then `g`, then `h`. A list may be of any length.
use crate::carrier::Cismutable;
use crate::identity::same_type;
use crate::value;
use vstd::prelude::*;

verus! {

/// An ordered list of branches for a carrier `RefT` of a `T`, each a handler
/// with a result in `R`. `Args` lists, branch by branch, the target type and
/// the carrier that the handler takes.
pub trait Branches<R, T, RefT, Args>: Sized {
    /// Some branch of the list has the type `T` for its target.
    spec fn handles(self) -> bool;

    /// The handler that `val` would be given to, if there is one, can be called
    /// on it.
    spec fn accepts(self, val: RefT) -> bool;

    /// `r` is a result of dispatching `val`: with `Ok`, what the first handler
    /// whose target is `T` can return on `val` reinterpreted; without such a
    /// handler, `val` itself, with `Err`.
    spec fn outcome(self, val: RefT, r: Result<R, RefT>) -> bool;

    /// Gives `val` to the first handler whose target type is `T` and returns
    /// what it returns. No other handler is called. If there is none, `val`
    /// comes back untouched.
    fn dispatch(self, val: RefT) -> (r: Result<R, RefT>)
        requires
            self.accepts(val),
        ensures
            self.outcome(val, r),
            r is Ok <==> self.handles(),
            r matches Err(back) ==> back == val,
    ;

    /// Every outcome is a success exactly when some branch has the target `T`,
    /// and a failure hands back the carrier that was given.
    proof fn lemma_outcome(self, val: RefT, r: Result<R, RefT>)
        requires
            self.outcome(val, r),
        ensures
            r is Ok <==> self.handles(),
            r matches Err(back) ==> back == val,
    ;
}

/// The list without a branch matches nothing.
impl<R, T: 'static, RefT> Branches<R, T, RefT, ()> for () {
    open spec fn handles(self) -> bool {
        false
    }

    open spec fn accepts(self, val: RefT) -> bool {
        true
    }

    open spec fn outcome(self, val: RefT, r: Result<R, RefT>) -> bool {
        r == Err::<R, RefT>(val)
    }

    #[inline(always)]
    fn dispatch(self, val: RefT) -> (r: Result<R, RefT>) {
        Err(val)
    }

    proof fn lemma_outcome(self, val: RefT, r: Result<R, RefT>) {
    }
}

/// A first branch with target `U`, before the branches of `Rest`.
impl<'a, R, T, RefT, U, RefU, F, Rest, RestArgs> Branches<R, T, RefT, ((U, RefU), RestArgs)> for (
    F,
    Rest,
) where
    T: 'static,
    U: 'static,
    RefT: Cismutable<'a, T, U, RefU>,
    F: FnOnce(RefU) -> R,
    Rest: Branches<R, T, RefT, RestArgs>,
{
    open spec fn handles(self) -> bool {
        same_type::<T, U>() || self.1.handles()
    }

    open spec fn accepts(self, val: RefT) -> bool {
        if same_type::<T, U>() {
            forall|out: RefU| #[trigger] val.renamed(out) ==> call_requires(self.0, (out,))
        } else {
            self.1.accepts(val)
        }
    }

    open spec fn outcome(self, val: RefT, r: Result<R, RefT>) -> bool {
        if same_type::<T, U>() {
            r matches Ok(res) && exists|out: RefU|
                #[trigger] val.renamed(out) && call_ensures(self.0, (out,), res)
        } else {
            self.1.outcome(val, r)
        }
    }

    #[inline(always)]
    fn dispatch(self, val: RefT) -> (r: Result<R, RefT>) {
        let (handler, rest) = self;
        match value::<'a, T, U, RefT, RefU>(val) {
            Ok(out) => Ok(handler(out)),
            Err(back) => rest.dispatch(back),
        }
    }

    proof fn lemma_outcome(self, val: RefT, r: Result<R, RefT>) {
        if !same_type::<T, U>() {
            self.1.lemma_outcome(val, r);
        }
    }
}

/// First match wins: where the first branch has the target `T`, the result is
/// that of its handler, whatever branches follow it and whatever their targets
/// are.
pub proof fn lemma_first_match_wins<'a, R, T, RefT, U, RefU, F, Rest, RestArgs>(
    branches: (F, Rest),
    val: RefT,
    r: Result<R, RefT>,
) where
    T: 'static,
    U: 'static,
    RefT: Cismutable<'a, T, U, RefU>,
    F: FnOnce(RefU) -> R,
    Rest: Branches<R, T, RefT, RestArgs>,

    requires
        same_type::<T, U>(),
        Branches::<R, T, RefT, ((U, RefU), RestArgs)>::outcome(branches, val, r),
    ensures
        r matches Ok(res) && exists|out: RefU| #[trigger]
            val.renamed(out) && call_ensures(branches.0, (out,), res),
{
}

/// A second branch with the target of the first is dead: the list behaves as it
/// does without that branch.
pub proof fn lemma_duplicate_is_dead<'a, R, T, RefT, U, RefU, F, G, Rest, RestArgs>(
    branches: (F, (G, Rest)),
    val: RefT,
    r: Result<R, RefT>,
) where
    T: 'static,
    U: 'static,
    RefT: Cismutable<'a, T, U, RefU>,
    F: FnOnce(RefU) -> R,
    G: FnOnce(RefU) -> R,
    Rest: Branches<R, T, RefT, RestArgs>,

    ensures
        Branches::<R, T, RefT, ((U, RefU), ((U, RefU), RestArgs))>::handles(branches)
            == Branches::<R, T, RefT, ((U, RefU), RestArgs)>::handles((branches.0, branches.1.1)),
        Branches::<R, T, RefT, ((U, RefU), ((U, RefU), RestArgs))>::accepts(branches, val)
            == Branches::<R, T, RefT, ((U, RefU), RestArgs)>::accepts(
            (branches.0, branches.1.1),
            val,
        ),
        Branches::<R, T, RefT, ((U, RefU), ((U, RefU), RestArgs))>::outcome(branches, val, r)
            == Branches::<R, T, RefT, ((U, RefU), RestArgs)>::outcome(
            (branches.0, branches.1.1),
            val,
            r,
        ),
{
}

/// A branch whose target is not `T` is passed over: the list behaves as the
/// branches after it do.
pub proof fn lemma_mismatch_is_skipped<'a, R, T, RefT, U, RefU, F, Rest, RestArgs>(
    branches: (F, Rest),
    val: RefT,
    r: Result<R, RefT>,
) where
    T: 'static,
    U: 'static,
    RefT: Cismutable<'a, T, U, RefU>,
    F: FnOnce(RefU) -> R,
    Rest: Branches<R, T, RefT, RestArgs>,

    requires
        !same_type::<T, U>(),
    ensures
        Branches::<R, T, RefT, ((U, RefU), RestArgs)>::handles(branches) == branches.1.handles(),
        Branches::<R, T, RefT, ((U, RefU), RestArgs)>::accepts(branches, val)
            == branches.1.accepts(val),
        Branches::<R, T, RefT, ((U, RefU), RestArgs)>::outcome(branches, val, r)
            == branches.1.outcome(val, r),
{
}

/// Two neighbouring branches of which at least one does not have the target `T`
/// can change places: the list behaves as before.
pub proof fn lemma_swap_mismatch<'a, R, T, RefT, U, RefU, V, RefV, F, G, Rest, RestArgs>(
    branches: (F, (G, Rest)),
    val: RefT,
    r: Result<R, RefT>,
) where
    T: 'static,
    U: 'static,
    V: 'static,
    RefT: Cismutable<'a, T, U, RefU> + Cismutable<'a, T, V, RefV>,
    F: FnOnce(RefU) -> R,
    G: FnOnce(RefV) -> R,
    Rest: Branches<R, T, RefT, RestArgs>,

    requires
        !same_type::<T, U>() || !same_type::<T, V>(),
    ensures
        Branches::<R, T, RefT, ((U, RefU), ((V, RefV), RestArgs))>::handles(branches)
            == Branches::<R, T, RefT, ((V, RefV), ((U, RefU), RestArgs))>::handles(
            (branches.1.0, (branches.0, branches.1.1)),
        ),
        Branches::<R, T, RefT, ((U, RefU), ((V, RefV), RestArgs))>::accepts(branches, val)
            == Branches::<R, T, RefT, ((V, RefV), ((U, RefU), RestArgs))>::accepts(
            (branches.1.0, (branches.0, branches.1.1)),
            val,
        ),
        Branches::<R, T, RefT, ((U, RefU), ((V, RefV), RestArgs))>::outcome(branches, val, r)
            == Branches::<R, T, RefT, ((V, RefV), ((U, RefU), RestArgs))>::outcome(
            (branches.1.0, (branches.0, branches.1.1)),
            val,
            r,
        ),
{
}

/// Lists that behave alike still do so behind one and the same first branch.
/// With the law above, this lets two neighbours change places anywhere in a
/// list.
pub proof fn lemma_same_behind_a_branch<
    'a,
    R,
    T,
    RefT,
    U,
    RefU,
    F,
    Rest,
    RestArgs,
    Other,
    OtherArgs,
>(handler: F, rest: Rest, other: Other, val: RefT, r: Result<R, RefT>) where
    T: 'static,
    U: 'static,
    RefT: Cismutable<'a, T, U, RefU>,
    F: FnOnce(RefU) -> R,
    Rest: Branches<R, T, RefT, RestArgs>,
    Other: Branches<R, T, RefT, OtherArgs>,

    requires
        rest.handles() == other.handles(),
        rest.accepts(val) == other.accepts(val),
        rest.outcome(val, r) == other.outcome(val, r),
    ensures
        Branches::<R, T, RefT, ((U, RefU), RestArgs)>::handles((handler, rest))
            == Branches::<R, T, RefT, ((U, RefU), OtherArgs)>::handles((handler, other)),
        Branches::<R, T, RefT, ((U, RefU), RestArgs)>::accepts((handler, rest), val)
            == Branches::<R, T, RefT, ((U, RefU), OtherArgs)>::accepts((handler, other), val),
        Branches::<R, T, RefT, ((U, RefU), RestArgs)>::outcome((handler, rest), val, r)
            == Branches::<R, T, RefT, ((U, RefU), OtherArgs)>::outcome((handler, other), val, r),
{
}

/// Where no branch has the target `T`, the carrier comes back as it was given.
pub proof fn lemma_exhaustion<R, T, RefT, Args, Tuple>(
    branches: Tuple,
    val: RefT,
    r: Result<R, RefT>,
) where Tuple: Branches<R, T, RefT, Args>

    requires
        !branches.handles(),
        branches.outcome(val, r),
    ensures
        r == Err::<R, RefT>(val),
{
    branches.lemma_outcome(val, r);
}

} // verus!
