use vstd::prelude::*;

verus! {

/// A value-producing behaviour that a render effect calls on each run.
pub trait ReactiveFunction: Sized {
    /// What one call produces.
    type Output;

    /// What the next call of `invoke` returns.
    spec fn next_output(&self) -> Self::Output;

    /// How many times the function has been called.
    spec fn reads(&self) -> nat;

    /// Calls the function once.
    fn invoke(&mut self) -> (r: Self::Output)
        ensures
            r == old(self).next_output(),
            final(self).next_output() == old(self).next_output(),
            final(self).reads() == old(self).reads() + 1,
    ;

    /// Puts the function behind a lock, so that several owners can call it in turn.
    fn into_shared(self) -> (r: SharedReactiveFunction<Self>)
        ensures
            r.function == self,
            !r.poisoned,
            r.function.reads() == self.reads(),
    ;
}

/// An observable cell holding a number: reading it is its reactive function.
/// A memoized cell is read ahead in the dry pre-pass, so that it is known as a
/// dependency; a plain cell is not, since reading it again costs nothing.
pub struct Source {
    pub value: u64,
    pub memoized: bool,
    pub reads: Ghost<nat>,
}

impl Source {
    /// A plain cell.
    pub fn new(value: u64) -> (r: Source)
        ensures
            r.value == value,
            !r.memoized,
            r.reads@ == 0,
    {
        Source { value, memoized: false, reads: Ghost(0) }
    }

    /// A memoized cell.
    pub fn memo(value: u64) -> (r: Source)
        ensures
            r.value == value,
            r.memoized,
            r.reads@ == 0,
    {
        Source { value, memoized: true, reads: Ghost(0) }
    }

    /// The current value, read as a dependency.
    pub fn get(&mut self) -> (r: u64)
        ensures
            r == old(self).value,
            final(self).value == old(self).value,
            final(self).memoized == old(self).memoized,
            final(self).reads@ == old(self).reads@ + 1,
    {
        self.reads = Ghost(self.reads@ + 1);
        self.value
    }

    /// Replaces the value.
    pub fn set(&mut self, value: u64)
        ensures
            final(self).value == value,
            final(self).memoized == old(self).memoized,
            final(self).reads@ == old(self).reads@,
    {
        self.value = value;
    }

    /// The dry pre-pass: a memoized cell is read once, a plain one not at all.
    pub fn dry_resolve(&mut self)
        ensures
            final(self).value == old(self).value,
            final(self).memoized == old(self).memoized,
            final(self).reads@ == old(self).reads@ + if old(self).memoized { 1nat } else { 0nat },
    {
        if self.memoized {
            let _ = self.get();
        }
    }
}

impl ReactiveFunction for Source {
    type Output = u64;

    open spec fn next_output(&self) -> u64 {
        self.value
    }

    open spec fn reads(&self) -> nat {
        self.reads@
    }

    fn invoke(&mut self) -> (r: u64) {
        self.get()
    }

    fn into_shared(self) -> (r: SharedReactiveFunction<Source>) {
        SharedReactiveFunction { function: self, poisoned: false }
    }
}

/// What one attempt to call a shared function does: a poisoned lock gives
/// nothing and stays poisoned; another gives the function's value.
pub open spec fn attempted<F: ReactiveFunction>(
    before: SharedReactiveFunction<F>,
    after: SharedReactiveFunction<F>,
    r: Option<F::Output>,
) -> bool {
    &&& before.poisoned ==> r.is_none() && after.poisoned
    &&& !before.poisoned ==> r == Some(before.function.next_output()) && !after.poisoned
        && after.function.reads() == before.function.reads() + 1
    &&& before.poisoned ==> after.function.reads() == before.function.reads()
    &&& after.function.next_output() == before.function.next_output()
}

/// A function behind a lock. A call that was abandoned while holding the lock
/// leaves it poisoned, and a poisoned lock gives no more values.
pub struct SharedReactiveFunction<F> {
    pub function: F,
    pub poisoned: bool,
}

impl<F: ReactiveFunction> SharedReactiveFunction<F> {
    /// Calls the function under the lock; a poisoned lock is a fatal error, so
    /// the caller must hold a lock that is not poisoned.
    pub fn invoke(&mut self) -> (r: F::Output)
        requires
            !old(self).poisoned,
        ensures
            r == old(self).function.next_output(),
            !final(self).poisoned,
            final(self).function.next_output() == old(self).function.next_output(),
            final(self).function.reads() == old(self).function.reads() + 1,
    {
        self.function.invoke()
    }

    /// Calls the function under the lock where it is not poisoned; gives
    /// nothing, and changes nothing, where it is.
    pub fn try_invoke(&mut self) -> (r: Option<F::Output>)
        ensures
            attempted(*old(self), *final(self), r),
    {
        if self.poisoned {
            None
        } else {
            Some(self.function.invoke())
        }
    }

    /// Records that a call was abandoned while it held the lock.
    pub fn poison(&mut self)
        ensures
            final(self).poisoned,
            final(self).function == old(self).function,
    {
        self.poisoned = true;
    }

    /// Whether the lock is poisoned.
    pub fn is_poisoned(&self) -> (r: bool)
        ensures
            r == self.poisoned,
    {
        self.poisoned
    }
}

/// Once poisoned, a shared function stays poisoned through any number of
/// attempts, and each of them gives nothing.
pub proof fn lemma_poison_is_permanent<F: ReactiveFunction>(
    attempts: Seq<SharedReactiveFunction<F>>,
    results: Seq<Option<F::Output>>,
)
    requires
        attempts.len() == results.len() + 1,
        attempts[0].poisoned,
        forall|k: int|
            0 <= k < results.len() ==> attempted(#[trigger] attempts[k], attempts[k + 1], results[k]),
    ensures
        forall|k: int| 0 <= k < results.len() ==> (#[trigger] results[k]).is_none(),
        attempts[attempts.len() - 1].poisoned,
    decreases results.len(),
{
    if results.len() > 0 {
        let n = results.len() - 1;
        lemma_poison_is_permanent(attempts.subrange(0, n + 1), results.subrange(0, n));
        assert(attempts.subrange(0, n + 1)[n] == attempts[n]);
        assert forall|k: int| 0 <= k < results.len() implies (#[trigger] results[k]).is_none() by {
            if k < n {
                assert(results.subrange(0, n)[k] == results[k]);
            }
        }
    }
}

} // verus!
