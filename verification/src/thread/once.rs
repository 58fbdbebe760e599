//! Values that are computed once.

use vstd::prelude::*;

verus! {

/// Something that is done once, however often it is asked for.
#[derive(Debug, Clone, Copy, PartialEq, Eq, Structural)]
pub struct Once {
    done: bool,
}

impl Once {
    /// Whether it has been done.
    pub closed spec fn is_done(&self) -> bool {
        self.done
    }

    /// Not done yet.
    pub fn new() -> (r: Once)
        ensures
            !r.is_done(),
    {
        Once { done: false }
    }

    /// Run `f` the first time this is called, and never again.
    pub fn call_once<F: FnOnce()>(&mut self, f: F)
        requires
            !old(self).is_done() ==> call_requires(f, ()),
        ensures
            final(self).is_done(),
            !old(self).is_done() ==> call_ensures(f, (), ()),
    {
        if !self.done {
            f();
            self.done = true;
        }
    }
}

impl Default for Once {
    fn default() -> (r: Once)
        ensures
            !r.is_done(),
    {
        Once::new()
    }
}

/// Nothing has been stored, and nobody is about to.
pub const ONCE_EMPTY: u8 = 0;

/// Somebody is about to store a value.
pub const ONCE_BUSY: u8 = 1;

/// A value is stored, and nothing is written any more.
pub const ONCE_READY: u8 = 2;

/// What asking to store a value came to.
#[derive(Debug, Clone, Copy, PartialEq, Eq, Structural)]
pub enum Claim {
    /// It is this thread's to store.
    Mine,
    /// Another thread is about to; let it run, and ask again.
    Busy,
    /// It is stored.
    Ready,
}

/// What a thread that asks to store a value is told, by the state it finds.
pub open spec fn told(state: u8) -> Claim {
    if state == ONCE_EMPTY {
        Claim::Mine
    } else if state == ONCE_READY {
        Claim::Ready
    } else {
        Claim::Busy
    }
}

/// The state that a thread leaves when it asks to store a value.
pub open spec fn claimed(state: u8) -> u8 {
    if state == ONCE_EMPTY {
        ONCE_BUSY
    } else {
        state
    }
}

/// What a thread that found `state` is told.
pub fn answer(state: u8) -> (r: Claim)
    ensures
        r == told(state),
        r is Mine <==> state == ONCE_EMPTY,
        r is Ready <==> state == ONCE_READY,
{
    if state == ONCE_EMPTY {
        Claim::Mine
    } else if state == ONCE_READY {
        Claim::Ready
    } else {
        Claim::Busy
    }
}

/// A turn that some thread takes at a lock.
pub enum Turn<T> {
    /// It asks to store a value.
    Claim,
    /// It stores one.
    Publish(T),
}

/// The state of a new lock and the value in it after these turns, in the order in which they were
/// taken by whichever threads.
pub open spec fn held_after<T>(turns: Seq<Turn<T>>) -> (u8, Option<T>)
    decreases turns.len(),
{
    if turns.len() == 0 {
        (ONCE_EMPTY, None)
    } else {
        let (state, value) = held_after(turns.drop_last());
        match turns.last() {
            Turn::Claim => (claimed(state), value),
            Turn::Publish(v) => (ONCE_READY, Some(v)),
        }
    }
}

/// Whether a value is stored only where a thread was told to.
pub open spec fn lawful<T>(turns: Seq<Turn<T>>) -> bool {
    forall|k: int|
        #![trigger turns[k]]
        0 <= k < turns.len() && turns[k] is Publish ==> held_after(turns.take(k)).0 == ONCE_BUSY
}

/// A lock that is no longer empty stays so, and a ready one keeps its value.
proof fn states_advance<T>(turns: Seq<Turn<T>>, i: int, j: int)
    requires
        lawful(turns),
        0 <= i <= j <= turns.len(),
    ensures
        held_after(turns.take(i)).0 != ONCE_EMPTY ==> held_after(turns.take(j)).0 != ONCE_EMPTY,
        held_after(turns.take(i)).0 == ONCE_READY ==> held_after(turns.take(j)) == held_after(
            turns.take(i),
        ),
    decreases j - i,
{
    if i < j {
        states_advance(turns, i, j - 1);
        assert(turns.take(j).drop_last() =~= turns.take(j - 1));
        assert(turns.take(j).last() == turns[j - 1]);
    }
}

/// However the turns of the threads fall, at most one of them is told to store the value.
pub proof fn one_thread_is_told_to_store<T>(turns: Seq<Turn<T>>, i: int, j: int)
    requires
        lawful(turns),
        0 <= i < j < turns.len(),
        turns[i] is Claim,
        told(held_after(turns.take(i)).0) == Claim::Mine,
    ensures
        told(held_after(turns.take(j)).0) != Claim::Mine,
{
    assert(turns.take(i + 1).drop_last() =~= turns.take(i));
    assert(turns.take(i + 1).last() == turns[i]);
    states_advance(turns, i + 1, j);
}

/// However the turns of the threads fall, a value that is stored is never stored over: from then on
/// the lock is ready and holds that value.
pub proof fn a_stored_value_stays<T>(turns: Seq<Turn<T>>, v: T, i: int, j: int)
    requires
        lawful(turns),
        0 <= i < j <= turns.len(),
        turns[i] == Turn::Publish(v),
    ensures
        held_after(turns.take(j)) == (ONCE_READY, Some(v)),
        j < turns.len() ==> turns[j] is Claim,
{
    assert(turns.take(i + 1).drop_last() =~= turns.take(i));
    assert(turns.take(i + 1).last() == turns[i]);
    states_advance(turns, i + 1, j);
}

/// A call that finds the lock busy, and asks again once the other thread has stored its value, ends
/// with that value, whichever turns come between.
pub proof fn a_waiting_call_gets_the_stored_value<T>(
    turns: Seq<Turn<T>>,
    v: T,
    asked: int,
    stored: int,
    again: int,
)
    requires
        lawful(turns),
        0 <= asked < stored < again < turns.len(),
        turns[asked] is Claim,
        told(held_after(turns.take(asked)).0) == Claim::Busy,
        turns[stored] == Turn::Publish(v),
        turns[again] is Claim,
    ensures
        told(held_after(turns.take(again)).0) == Claim::Ready,
        held_after(turns.take(again)).1 == Some(v),
{
    a_stored_value_stays(turns, v, stored, again);
}

/// A value initialised at most once, on first use.
///
/// Each operation here is one atomic turn. The wait while another thread is initialising is a
/// yield rather than a sleep: initialising takes microseconds and the contended case is rare.
pub struct OnceLock<T> {
    state: u8,
    value: Option<T>,
}

impl<T> OnceLock<T> {
    /// The state.
    pub closed spec fn state(&self) -> u8 {
        self.state
    }

    /// The value, if it has been initialised.
    pub closed spec fn stored(&self) -> Option<T> {
        self.value
    }

    /// There is a value exactly when the state says so.
    #[verifier::type_invariant]
    spec fn well_formed(self) -> bool {
        &&& self.state == ONCE_EMPTY || self.state == ONCE_BUSY || self.state == ONCE_READY
        &&& self.value is Some <==> self.state == ONCE_READY
    }

    /// An empty lock.
    pub fn new() -> (r: OnceLock<T>)
        ensures
            r.state() == ONCE_EMPTY,
            r.stored() is None,
    {
        OnceLock { state: ONCE_EMPTY, value: None }
    }

    /// The value, if it has been initialised.
    pub fn get(&self) -> (r: Option<&T>)
        ensures
            match self.stored() {
                Some(v) => r matches Some(w) && *w == v,
                None => r is None,
            },
    {
        proof {
            use_type_invariant(self);
        }
        if self.state != ONCE_READY {
            return None;
        }
        self.value.as_ref()
    }

    /// Ask to store a value. At most one thread is told that it is its to store.
    pub fn claim(&mut self) -> (r: Claim)
        ensures
            r == told(old(self).state()),
            r is Mine <==> old(self).state() == ONCE_EMPTY,
            r is Ready <==> old(self).state() == ONCE_READY,
            r is Busy <==> old(self).state() == ONCE_BUSY,
            r is Mine ==> final(self).state() == ONCE_BUSY,
            !(r is Mine) ==> final(self).state() == old(self).state(),
            final(self).state() == claimed(old(self).state()),
            final(self).stored() == old(self).stored(),
    {
        proof {
            use_type_invariant(&*self);
        }
        let r = answer(self.state);
        if self.state == ONCE_EMPTY {
            self.state = ONCE_BUSY;
        }
        r
    }

    /// Store the value, as the thread that was told to.
    pub fn publish(&mut self, value: T)
        requires
            old(self).state() == ONCE_BUSY,
        ensures
            final(self).state() == ONCE_READY,
            final(self).stored() == Some(value),
    {
        *self = OnceLock { state: ONCE_READY, value: Some(value) };
    }

    /// The value, initialising it with `f` if this is the first call. `f` runs at most once.
    ///
    /// `f` comes back where another thread is about to store the value: let it run, and ask again.
    /// `f` must not come back to the same lock: that waits forever.
    pub fn get_or_init<F: FnOnce() -> T>(&mut self, f: F) -> (r: Result<&T, F>)
        requires
            old(self).state() == ONCE_EMPTY ==> call_requires(f, ()),
        ensures
            match r {
                Ok(v) => {
                    &&& old(self).state() != ONCE_BUSY
                    &&& final(self).state() == ONCE_READY
                    &&& final(self).stored() == Some(*v)
                    &&& match old(self).stored() {
                        Some(w) => *v == w,
                        None => call_ensures(f, (), *v),
                    }
                },
                Err(g) => {
                    &&& old(self).state() == ONCE_BUSY
                    &&& g == f
                    &&& final(self).state() == ONCE_BUSY
                    &&& final(self).stored() == old(self).stored()
                },
            },
    {
        proof {
            use_type_invariant(&*self);
        }
        match self.claim() {
            Claim::Mine => {
                let v = f();
                self.publish(v);
            },
            Claim::Ready => {},
            Claim::Busy => {
                return Err(f);
            },
        }
        proof {
            use_type_invariant(&*self);
        }
        Ok(self.value.as_ref().unwrap())
    }

    /// Store a value if the lock is empty, or hand it back.
    pub fn set(&mut self, value: T) -> (r: Result<(), T>)
        ensures
            old(self).state() == ONCE_EMPTY ==> r is Ok && final(self).stored() == Some(value)
                && final(self).state() == ONCE_READY,
            old(self).state() != ONCE_EMPTY ==> r == Err::<(), T>(value) && final(self).stored()
                == old(self).stored() && final(self).state() == old(self).state(),
    {
        match self.claim() {
            Claim::Mine => {
                self.publish(value);
                Ok(())
            },
            _ => Err(value),
        }
    }
}

impl<T> Default for OnceLock<T> {
    fn default() -> (r: OnceLock<T>)
        ensures
            r.state() == ONCE_EMPTY,
            r.stored() is None,
    {
        OnceLock::new()
    }
}

impl<T: Clone> Clone for OnceLock<T> {
    /// A ready lock clones its value; any other clones as empty, which is the same answer as
    /// computing it again.
    fn clone(&self) -> (r: OnceLock<T>)
        ensures
            match self.stored() {
                Some(v) => r.stored() matches Some(w) && cloned(v, w) && r.state() == ONCE_READY,
                None => r.stored() is None && r.state() == ONCE_EMPTY,
            },
    {
        let mut out = OnceLock::new();
        match self.get() {
            Some(v) => {
                let _stored = out.set(v.clone());
            },
            None => {},
        }
        out
    }
}

/// A value computed on first use.
///
/// What computes it is kept beside it and taken when it runs.
#[verifier::reject_recursive_types(T)]
pub struct LazyLock<T, F: FnOnce() -> T> {
    once: OnceLock<T>,
    init: Option<F>,
}

impl<T, F: FnOnce() -> T> LazyLock<T, F> {
    /// The value, if it has been computed.
    pub closed spec fn computed(&self) -> Option<T> {
        self.once.stored()
    }

    /// What will compute it, if it has not.
    pub closed spec fn pending(&self) -> Option<F> {
        self.init
    }

    /// Nobody is ever seen about to store the value.
    #[verifier::type_invariant]
    spec fn well_formed(self) -> bool {
        &&& self.once.stored() is None ==> self.once.state() == ONCE_EMPTY
        &&& self.once.stored() is Some ==> self.once.state() == ONCE_READY
    }

    /// A lock that will call `f` on first use.
    pub fn new(f: F) -> (r: LazyLock<T, F>)
        ensures
            r.computed() is None,
            r.pending() == Some(f),
    {
        LazyLock { once: OnceLock::new(), init: Some(f) }
    }

    /// The value, if it has been computed.
    pub fn get(&self) -> (r: Option<&T>)
        ensures
            match self.computed() {
                Some(v) => r matches Some(w) && *w == v,
                None => r is None,
            },
    {
        self.once.get()
    }

    /// The value, computing it if this is the first time. It is computed at most once.
    pub fn force(this: &mut LazyLock<T, F>) -> (r: &T)
        requires
            old(this).computed() is None ==> (old(this).pending() matches Some(f)
                && call_requires(f, ())),
        ensures
            final(this).computed() == Some(*r),
            final(this).pending() == (if old(this).computed() is None {
                None
            } else {
                old(this).pending()
            }),
            match old(this).computed() {
                Some(v) => *r == v,
                None => call_ensures(old(this).pending()->0, (), *r),
            },
    {
        proof {
            use_type_invariant(&*this);
        }
        if this.once.get().is_none() {
            let mut init = None;
            std::mem::swap(&mut init, &mut this.init);
            let f = init.unwrap();
            let mut once = OnceLock::new();
            let _stored = once.set(f());
            this.once = once;
        }
        this.once.get().unwrap()
    }
}


/// Whoever finds the lock empty is to store the value and leaves it busy; whoever finds it ready is
/// told so, and whoever finds it busy is to ask again, and neither changes anything.
pub proof fn what_whoever_asks_is_told(state: u8)
    ensures
        told(state) is Mine <==> state == ONCE_EMPTY,
        told(state) is Ready <==> state == ONCE_READY,
        told(state) is Busy <==> state != ONCE_EMPTY && state != ONCE_READY,
        claimed(ONCE_EMPTY) == ONCE_BUSY,
        state != ONCE_EMPTY ==> claimed(state) == state,
        ONCE_EMPTY != ONCE_BUSY && ONCE_BUSY != ONCE_READY && ONCE_EMPTY != ONCE_READY,
{
}

} // verus!
