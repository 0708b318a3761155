//! Mutual exclusion for kernel-side state.
//!
//! The lock is a single state word co-located with the guarded payload. The
//! hardware acquire is one atomic exchange that writes `Acquired` and hands
//! back the previous word; it succeeds exactly when that previous word was
//! `Released`. Release is a single write back to `Released`. Because the
//! exchange is atomic, two racing acquirers order as two consecutive
//! exchanges on the word, which is how the exclusion law below is stated.

use vstd::prelude::*;

verus! {

/// The two values of a lock's state word.
#[derive(Clone, Copy, PartialEq, Eq, Structural, Debug)]
pub enum MutexState {
    /// No one holds the lock.
    Released,
    /// Some party holds the lock.
    Acquired,
}

/// Whether an atomic exchange-acquire on a word in state `s` succeeds: it
/// does exactly when the word was `Released`.
pub open spec fn acquire_succeeds(s: MutexState) -> bool {
    s is Released
}

/// The state of the word after an atomic exchange-acquire, whatever it held
/// before.
pub open spec fn state_after_acquire() -> MutexState {
    MutexState::Acquired
}

/// Witness that an acquire succeeded. The party holding the guard has
/// exclusive access to the payload until it surrenders the guard to
/// [`Mutex::unlock`].
pub struct MutexGuard {}

/// A spinlock protecting a payload of type `T`.
pub struct Mutex<T> {
    state: MutexState,
    data: T,
}

impl<T> Mutex<T> {
    /// The current value of the state word.
    pub closed spec fn state(self) -> MutexState {
        self.state
    }

    /// The guarded payload.
    pub closed spec fn value(self) -> T {
        self.data
    }

    /// Create a lock in the `Released` state around the given payload.
    pub fn new(data: T) -> (r: Mutex<T>)
        ensures
            r.state() is Released,
            r.value() == data,
    {
        Mutex { state: MutexState::Released, data }
    }

    /// The atomic exchange the hardware acquire performs: write `Acquired`
    /// into the state word and hand back what the word held before.
    fn exchange_acquire(&mut self) -> (prev: MutexState)
        ensures
            prev == old(self).state(),
            final(self).state() == state_after_acquire(),
            final(self).value() == old(self).value(),
    {
        let prev = self.state;
        self.state = MutexState::Acquired;
        prev
    }

    /// Attempt to acquire the lock with a single atomic exchange. Returns a
    /// guard exactly when the previous state was `Released`; losing the race
    /// is not an error.
    pub fn try_lock(&mut self) -> (r: Option<MutexGuard>)
        ensures
            final(self).state() is Acquired,
            final(self).value() == old(self).value(),
            (r is Some) == acquire_succeeds(old(self).state()),
    {
        let prev = self.exchange_acquire();
        match prev {
            MutexState::Released => Some(MutexGuard {  }),
            MutexState::Acquired => None,
        }
    }

    /// Busy-retry [`Mutex::try_lock`] until it succeeds; usable from
    /// interrupt context, where parking is unavailable. The caller must not
    /// already hold the lock: with no other party left to release it,
    /// re-acquiring would spin forever.
    pub fn spin_lock(&mut self) -> (r: MutexGuard)
        requires
            old(self).state() is Released,
        ensures
            final(self).state() is Acquired,
            final(self).value() == old(self).value(),
    {
        loop
            invariant
                self.state() is Released,
                self.value() == old(self).value(),
            decreases 0int,
        {
            if let Some(guard) = self.try_lock() {
                return guard;
            }
            proof {
                // the exchange on a released word always hands out the guard
                assert(false);
            }
        }
    }

    /// Read the payload; only the guard holder may look.
    pub fn data<'a>(&'a self, _guard: &MutexGuard) -> (r: &'a T)
        requires
            self.state() is Acquired,
        ensures
            *r == self.value(),
    {
        &self.data
    }

    /// Write the payload; only the guard holder may touch it.
    pub fn data_mut<'a>(&'a mut self, _guard: &MutexGuard) -> (r: &'a mut T)
        requires
            old(self).state() is Acquired,
        ensures
            *r == old(self).value(),
            final(self).value() == *final(r),
            final(self).state() is Acquired,
    {
        &mut self.data
    }

    /// Release the lock with a single write of `Released`, surrendering the
    /// guard. Every exit path of a critical section ends here.
    pub fn unlock(&mut self, guard: MutexGuard)
        requires
            old(self).state() is Acquired,
        ensures
            final(self).state() is Released,
            final(self).value() == old(self).value(),
    {
        let MutexGuard {  } = guard;
        self.state = MutexState::Released;
    }
}

/// Mutual exclusion: two concurrent acquirers of the same lock never both
/// obtain the guard. The hardware exchange is atomic, so the two attempts
/// order as consecutive exchanges on the state word; whichever runs second
/// observes the `Acquired` word the first one wrote, and fails.
pub proof fn lemma_spin_lock_exclusion(s0: MutexState)
    ensures
        !(acquire_succeeds(s0) && acquire_succeeds(state_after_acquire())),
{
}

} // verus!
