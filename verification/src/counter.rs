//! Counting reconnects.

use std::sync::atomic::AtomicUsize;
use std::sync::Arc;
use vstd::prelude::*;

verus! {

/// What became of one handle on a count.
#[verifier::ext_equal]
pub struct CounterState {
    /// The memory that the count is in. Handles with the same memory share one
    /// count.
    pub cell: Arc<AtomicUsize>,
    /// How much was added to the count through this handle.
    pub counted: nat,
    /// What was read through this handle.
    pub reads: Seq<usize>,
    /// No other handle was ever made on the count.
    pub sole: bool,
}

impl CounterState {
    /// The one handle on a count that is zero.
    pub open spec fn fresh(cell: Arc<AtomicUsize>) -> Self {
        CounterState { cell, counted: 0, reads: Seq::empty(), sole: true }
    }

    /// A handle on a count that has other handles too, and that nothing was done
    /// with.
    pub open spec fn other(cell: Arc<AtomicUsize>) -> Self {
        CounterState { cell, counted: 0, reads: Seq::empty(), sole: false }
    }

    /// The handle after `n` was added to the count through it.
    pub open spec fn plus(self, n: usize) -> Self {
        CounterState { counted: (self.counted + n) as nat, ..self }
    }

    /// The handle after the count was read through it.
    pub open spec fn read(self, r: usize) -> Self {
        CounterState { reads: self.reads.push(r), ..self }
    }

    /// The handle after another one was made on the same count.
    pub open spec fn share(self) -> Self {
        CounterState { sole: false, ..self }
    }

    /// The count, where only this handle added to it: what was added, modulo the
    /// size of `usize`.
    pub open spec fn count(self) -> usize {
        (self.counted as int % (usize::MAX + 1)) as usize
    }
}

/// A handle on the number of times that the connection was given up and set up
/// anew. All handles that were made from one another share one count.
///
/// Its fields are private, and only `zero`, `add`, `load` and `another` set its
/// record: no verified function can count, or make up what it read, without that
/// the record shows it.
pub struct ReconnectCounter {
    cell: Arc<AtomicUsize>,
    record: Ghost<CounterState>,
}

impl View for ReconnectCounter {
    type V = CounterState;

    closed spec fn view(&self) -> CounterState {
        self.record@
    }
}

/// Calls `Default` of `Arc<AtomicUsize>`: new memory that holds zero, with one
/// handle on it.
#[verifier::external_body]
fn zero() -> (r: ReconnectCounter)
    ensures
        r@ == CounterState::fresh(r@.cell),
{
    ReconnectCounter { cell: Arc::default(), record: Ghost(arbitrary()) }
}

impl ReconnectCounter {
    /// Calls `AtomicUsize::fetch_add` with `n`, once. The sum wraps around.
    #[verifier::external_body]
    fn add(&mut self, n: usize)
        ensures
            final(self)@ == old(self)@.plus(n),
    {
        self.cell.fetch_add(n, std::sync::atomic::Ordering::SeqCst);
    }

    /// Calls `AtomicUsize::load`, once, and returns what the memory holds at that
    /// time: what all handles together added to zero. Where this is the only
    /// handle, that is the count that it knows of. Where there are others it
    /// depends on what they added by then, and of that the contract says nothing.
    #[verifier::external_body]
    fn load(&mut self) -> (r: usize)
        ensures
            final(self)@ == old(self)@.read(r),
            old(self)@.sole ==> r == old(self)@.count(),
    {
        self.cell.load(std::sync::atomic::Ordering::SeqCst)
    }

    /// Calls `Clone` of `Arc`, once: another handle on the same memory.
    #[verifier::external_body]
    fn another(&mut self) -> (r: ReconnectCounter)
        ensures
            final(self)@ == old(self)@.share(),
            r@ == CounterState::other(old(self)@.cell),
    {
        ReconnectCounter { cell: self.cell.clone(), record: Ghost(arbitrary()) }
    }

    /// A counter at zero.
    pub fn new() -> (r: Self)
        ensures
            r@ == CounterState::fresh(r@.cell),
    {
        zero()
    }

    /// The count, as all handles together made it.
    pub fn get(&mut self) -> (r: usize)
        ensures
            final(self)@ == old(self)@.read(r),
            old(self)@.sole ==> r == old(self)@.count(),
    {
        self.load()
    }

    /// Counts one more reconnect.
    pub fn inc(&mut self)
        ensures
            final(self)@ == old(self)@.plus(1),
    {
        self.add(1)
    }

    /// Another handle on the same count.
    pub fn share(&mut self) -> (r: Self)
        ensures
            final(self)@ == old(self)@.share(),
            r@ == CounterState::other(old(self)@.cell),
    {
        self.another()
    }
}

/// The number after `n`, where zero follows `usize::MAX`.
pub open spec fn wrapping_succ(n: usize) -> usize {
    if n == usize::MAX {
        0
    } else {
        (n + 1) as usize
    }
}

} // verus!
