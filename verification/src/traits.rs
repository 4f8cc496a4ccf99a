//! Scope functions that every value has: run a side effect on a value and keep
//! it, or keep a value only when a predicate accepts it.

use vstd::prelude::*;

verus! {

pub trait KotlinAny {
    /// Calls `function` on a reference to `self` and hands `self` back unchanged.
    /// Whatever `function` returns is dropped.
    #[inline(always)]
    fn also<ANY>(self, function: impl FnOnce(&Self) -> ANY) -> (kept: Self) where Self: Sized
        requires
            call_requires(function, (&self,)),
        ensures
            kept == self,
            exists|out: ANY| call_ensures(function, (&self,), out),
    {
        let out = function(&self);
        self
    }

    /// Hands `self` back inside `Some` when `predicate` accepts it, and `None`
    /// when it does not.
    #[inline(always)]
    fn take_if(self, predicate: impl FnOnce(&Self) -> bool) -> (taken: Option<Self>) where
        Self: Sized,

        requires
            call_requires(predicate, (&self,)),
        ensures
            taken is Some ==> taken == Some(self) && call_ensures(predicate, (&self,), true),
            taken is None ==> call_ensures(predicate, (&self,), false),
    {
        if predicate(&self) {
            return Some(self);
        }
        None
    }
}

impl<ANY> KotlinAny for ANY {
}

} // verus!
