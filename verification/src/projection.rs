//! A projection: a materialized view folded from events.

use vstd::prelude::*;

verus! {

/// A materialized view built from events via a projection function.
pub struct Projection<T: Default + Clone> {
    /// Always `Some`; it is empty only while `apply` runs the function.
    state: Option<T>,
}

impl<T: Default + Clone> View for Projection<T> {
    type V = T;

    closed spec fn view(&self) -> T {
        self.state.unwrap()
    }
}

impl<T: Default + Clone> Projection<T> {
    /// The projection holds a state.
    pub closed spec fn well_formed(&self) -> bool {
        self.state is Some
    }

    /// A projection whose state is `T::default()`.
    pub fn new() -> (r: Self)
        ensures
            r.well_formed(),
            call_ensures(T::default, (), r@),
    {
        Projection { state: Some(T::default()) }
    }

    /// A projection whose state is `initial`.
    pub fn from(initial: T) -> (r: Self)
        ensures
            r.well_formed(),
            r@ == initial,
    {
        Projection { state: Some(initial) }
    }

    /// Replaces the state by what `f` makes of it.
    pub fn apply<F: FnOnce(T) -> T>(&mut self, f: F)
        requires
            old(self).well_formed(),
            call_requires(f, (old(self)@,)),
        ensures
            final(self).well_formed(),
            call_ensures(f, (old(self)@,), final(self)@),
    {
        let current = self.state.take();
        match current {
            Some(s) => {
                self.state = Some(f(s));
            },
            None => {},
        }
    }

    /// A copy of the current state.
    pub fn snapshot(&self) -> (r: T)
        requires
            self.well_formed(),
        ensures
            cloned(self@, r),
    {
        match &self.state {
            Some(s) => s.clone(),
            None => T::default(),
        }
    }
}

impl<T: Default + Clone> Default for Projection<T> {
    fn default() -> (r: Self)
        ensures
            r.well_formed(),
            call_ensures(T::default, (), r@),
    {
        Self::new()
    }
}

} // verus!
