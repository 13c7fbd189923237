//! A signal: a list of listeners that are all invoked with one value.

use core::marker::PhantomData;
use vstd::prelude::*;

verus! {

/// A signal: a bag of listener functions, all of one type, each called
/// with a copy of the value handed to `invoke`.
pub struct Signal<T, F> where F: Fn(T) -> () {
    listeners: Vec<F>,
    marker: PhantomData<T>,
}

impl<T, F> Signal<T, F> where F: Fn(T) -> () {
    /// The listeners bound so far, in binding order.
    pub closed spec fn listeners(&self) -> Seq<F> {
        self.listeners@
    }

    /// A signal with no listeners.
    pub fn new() -> (s: Signal<T, F>)
        ensures
            s.listeners() == Seq::<F>::empty(),
    {
        let s = Signal { listeners: Vec::new(), marker: PhantomData };
        proof {
            assert(s.listeners() =~= Seq::<F>::empty());
        }
        s
    }

    /// Bind one more listener; it will be invoked after those already
    /// bound.
    pub fn bind(&mut self, func: F)
        ensures
            final(self).listeners() == old(self).listeners().push(func),
    {
        self.listeners.push(func);
    }

    /// Invoke every listener, in binding order, each with its own clone of
    /// `value`.
    pub fn invoke(&self, value: T) where T: Clone
        requires
            forall|i: int, v: T|
                0 <= i < self.listeners().len() ==> #[trigger] call_requires(
                    self.listeners()[i],
                    (v,),
                ),
    {
        let n = self.listeners.len();
        let mut i: usize = 0;
        while i < n
            invariant
                0 <= i <= n,
                n == self.listeners().len(),
                forall|k: int, v: T|
                    0 <= k < self.listeners().len() ==> #[trigger] call_requires(
                        self.listeners()[k],
                        (v,),
                    ),
            decreases n - i,
        {
            (self.listeners[i])(value.clone());
            i = i + 1;
        }
    }
}

} // verus!
