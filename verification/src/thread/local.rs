//! Values that each thread has of its own.

use vstd::prelude::*;

verus! {

// ---------------------------------------------------------------------------------------------
// Agreeing on a key.
// ---------------------------------------------------------------------------------------------

/// The key that finds each thread's own value, made on first use.
///
/// It is kept as the key plus one, so that zero means "not made yet" without claiming that zero is
/// not a key, which it is. Two threads that race to make it end up with one key, and the loser
/// frees its own.
#[derive(Debug, Clone, Copy, PartialEq, Eq, Structural)]
pub struct ThreadLocal {
    stored: usize,
}

/// The key a thread is to use, and whether the one it made is to be freed.
#[derive(Debug, Clone, Copy, PartialEq, Eq, Structural)]
pub struct KeyChoice {
    pub key: u32,
    pub free_own: bool,
}

impl ThreadLocal {
    /// The key, if it has been made.
    pub closed spec fn agreed(&self) -> Option<u32> {
        if self.stored == 0 {
            None
        } else {
            Some((self.stored - 1) as u32)
        }
    }

    /// A key is 32 bits.
    #[verifier::type_invariant]
    spec fn well_formed(self) -> bool {
        self.stored <= u32::MAX + 1
    }

    /// No key yet.
    pub fn new() -> (r: ThreadLocal)
        ensures
            r.agreed() is None,
    {
        ThreadLocal { stored: 0 }
    }

    /// The key, if it has been made.
    pub fn key(&self) -> (r: Option<u32>)
        ensures
            r == self.agreed(),
    {
        if self.stored != 0 {
            return Some((self.stored - 1) as u32);
        }
        None
    }

    /// Offer a key that was made, from what `pthread_key_create` returned. Nothing when it could
    /// not be made, which is a process out of thread-local slots.
    pub fn offer(&mut self, returned: i32, created: u32) -> (r: Option<KeyChoice>)
        requires
            created < usize::MAX,
        ensures
            match r {
                None => returned != 0 && final(self).agreed() == old(self).agreed(),
                Some(c) => {
                    &&& returned == 0
                    &&& final(self).agreed() == Some(c.key)
                    &&& match old(self).agreed() {
                        None => c == (KeyChoice { key: created, free_own: false }),
                        Some(theirs) => c == (KeyChoice { key: theirs, free_own: true }),
                    }
                },
            },
    {
        proof {
            use_type_invariant(&*self);
        }
        if returned != 0 {
            return None;
        }
        if self.stored == 0 {
            self.stored = created as usize + 1;
            return Some(KeyChoice { key: created, free_own: false });
        }
        Some(KeyChoice { key: (self.stored - 1) as u32, free_own: true })
    }
}

// ---------------------------------------------------------------------------------------------
// A thread's own value.
// ---------------------------------------------------------------------------------------------

/// One thread's own value, made on that thread's first touch.
#[verifier::reject_recursive_types(T)]
pub struct LocalKey<T, I: Fn() -> T> {
    value: Option<T>,
    init: I,
}

impl<T, I: Fn() -> T> LocalKey<T, I> {
    /// The value, if the thread has touched it.
    pub closed spec fn held(&self) -> Option<T> {
        self.value
    }

    /// What makes it.
    pub closed spec fn maker(&self) -> I {
        self.init
    }

    /// Whether the value is there or can be made.
    pub open spec fn ready(&self) -> bool {
        self.held() is None ==> call_requires(self.maker(), ())
    }

    /// Whether `v` is what a thread finds when it touches the value.
    pub open spec fn finds(&self, v: T) -> bool {
        match self.held() {
            Some(w) => v == w,
            None => call_ensures(self.maker(), (), v),
        }
    }

    /// A value that `init` makes on first touch.
    pub fn new(init: I) -> (r: LocalKey<T, I>)
        ensures
            r.held() is None,
            r.maker() == init,
    {
        LocalKey { value: None, init }
    }

    /// Make the value if this is the first touch.
    fn touch(&mut self)
        requires
            old(self).ready(),
        ensures
            final(self).maker() == old(self).maker(),
            final(self).held() matches Some(v) && old(self).finds(v),
    {
        if self.value.is_none() {
            let made = (self.init)();
            self.value = Some(made);
        }
    }

    /// Run `f` on the value.
    pub fn with<R, F: FnOnce(&T) -> R>(&mut self, f: F) -> (r: R)
        requires
            old(self).ready(),
            forall|v: T| old(self).finds(v) ==> call_requires(f, (&v,)),
        ensures
            final(self).maker() == old(self).maker(),
            final(self).held() matches Some(v) && old(self).finds(v) && call_ensures(f, (&v,), r),
    {
        self.touch();
        f(self.value.as_ref().unwrap())
    }

    /// Run `f` on the value, as [`LocalKey::with`] does.
    pub fn with_borrow<R, F: FnOnce(&T) -> R>(&mut self, f: F) -> (r: R)
        requires
            old(self).ready(),
            forall|v: T| old(self).finds(v) ==> call_requires(f, (&v,)),
        ensures
            final(self).maker() == old(self).maker(),
            final(self).held() matches Some(v) && old(self).finds(v) && call_ensures(f, (&v,), r),
    {
        self.with(f)
    }

    /// Run `f` on the value, which it may change.
    pub fn with_mut<R, F: FnOnce(&mut T) -> R>(&mut self, f: F) -> (r: R)
        requires
            old(self).ready(),
            forall|m: &mut T| old(self).finds(*m) ==> call_requires(f, (m,)),
        ensures
            final(self).maker() == old(self).maker(),
            exists|m: &mut T|
                old(self).finds(*m) && call_ensures(f, (m,), r) && final(self).held() == Some(
                    *final(m),
                ),
    {
        self.touch();
        f(self.value.as_mut().unwrap())
    }

    /// Run `f` on the value, which it may change, as [`LocalKey::with_mut`] does.
    pub fn with_borrow_mut<R, F: FnOnce(&mut T) -> R>(&mut self, f: F) -> (r: R)
        requires
            old(self).ready(),
            forall|m: &mut T| old(self).finds(*m) ==> call_requires(f, (m,)),
        ensures
            final(self).maker() == old(self).maker(),
            exists|m: &mut T|
                old(self).finds(*m) && call_ensures(f, (m,), r) && final(self).held() == Some(
                    *final(m),
                ),
    {
        self.with_mut(f)
    }

    /// Overwrite the value, returning the old one.
    pub fn replace(&mut self, value: T) -> (r: T)
        requires
            old(self).ready(),
        ensures
            final(self).maker() == old(self).maker(),
            final(self).held() == Some(value),
            old(self).finds(r),
    {
        self.touch();
        let mut slot = Some(value);
        std::mem::swap(&mut slot, &mut self.value);
        slot.unwrap()
    }

    /// Overwrite the value.
    pub fn set(&mut self, value: T)
        requires
            old(self).ready(),
        ensures
            final(self).maker() == old(self).maker(),
            final(self).held() == Some(value),
    {
        let _old = self.replace(value);
    }

    /// Take the value, leaving its default.
    pub fn take(&mut self) -> (r: T) where T: Default
        requires
            old(self).ready(),
        ensures
            final(self).maker() == old(self).maker(),
            final(self).held() matches Some(d) && call_ensures(T::default, (), d),
            old(self).finds(r),
    {
        let rest = T::default();
        self.replace(rest)
    }

    /// The current value.
    pub fn get(&mut self) -> (r: T) where T: Copy
        requires
            old(self).ready(),
        ensures
            final(self).maker() == old(self).maker(),
            final(self).held() == Some(r),
            old(self).finds(r),
    {
        self.touch();
        *self.value.as_ref().unwrap()
    }
}

// ---------------------------------------------------------------------------------------------
// A value installed for a while.
// ---------------------------------------------------------------------------------------------

/// A value installed for the duration of a call, readable by anything below it on the stack.
pub struct ScopedKey<'a, T> {
    current: Option<&'a T>,
}

/// What was installed before, to be put back.
///
/// It is put back however the call ends, also when it unwinds: what would otherwise stay installed
/// is a value whose owner is gone.
pub struct Reset<'a, T> {
    previous: Option<&'a T>,
}

impl<'a, T> Reset<'a, T> {
    /// What was installed before.
    pub closed spec fn installed_before(&self) -> Option<&'a T> {
        self.previous
    }
}

impl<'a, T> ScopedKey<'a, T> {
    /// What is installed.
    pub closed spec fn installed(&self) -> Option<&'a T> {
        self.current
    }

    /// Nothing installed.
    pub fn new() -> (r: ScopedKey<'a, T>)
        ensures
            r.installed() is None,
    {
        ScopedKey { current: None }
    }

    /// Install a value until what was installed before is put back with what is returned.
    pub fn install(&mut self, value: &'a T) -> (r: Reset<'a, T>)
        ensures
            final(self).installed() == Some(value),
            r.installed_before() == old(self).installed(),
    {
        let previous = self.current;
        self.current = Some(value);
        Reset { previous }
    }

    /// Put back what was installed before.
    pub fn put_back(&mut self, reset: Reset<'a, T>)
        ensures
            final(self).installed() == reset.installed_before(),
    {
        self.current = reset.previous;
    }

    /// Install `value` for the duration of `f`, which runs once. What was installed before is
    /// installed again afterwards, whatever `f` did.
    pub fn set<R, F: FnOnce(&mut ScopedKey<'a, T>) -> R>(&mut self, value: &'a T, f: F) -> (r: R)
        requires
            forall|k: &mut ScopedKey<'a, T>|
                k.installed() == Some(value) ==> call_requires(f, (k,)),
        ensures
            exists|k: &mut ScopedKey<'a, T>|
                k.installed() == Some(value) && call_ensures(f, (k,), r),
            final(self).installed() == old(self).installed(),
    {
        let before = self.install(value);
        let r = f(&mut *self);
        self.put_back(before);
        r
    }

    /// The installed value. There has to be one: a caller that reaches for it where there is none
    /// has a bug.
    pub fn with(&self) -> (r: &'a T)
        requires
            self.installed() is Some,
        ensures
            Some(r) == self.installed(),
    {
        self.current.unwrap()
    }

    /// Whether a value is installed.
    pub fn is_set(&self) -> (r: bool)
        ensures
            r == (self.installed() is Some),
    {
        self.current.is_some()
    }
}

/// One step at a key that values are installed at.
pub enum Scoped<T> {
    /// A call begins, with this value installed.
    Install(T),
    /// The innermost call that has begun ends, by returning or by unwinding: what it found
    /// installed is put back.
    PutBack,
}

/// What is installed at a key, above what each call that has begun will put back.
pub open spec fn installs<T>(stack: Seq<Option<T>>, steps: Seq<Scoped<T>>) -> Seq<Option<T>>
    decreases steps.len(),
{
    if steps.len() == 0 {
        stack
    } else {
        let before = installs(stack, steps.drop_last());
        match steps.last() {
            Scoped::Install(v) => before.push(Some(v)),
            Scoped::PutBack => before.drop_last(),
        }
    }
}

/// How many calls have begun and not ended.
pub open spec fn depth<T>(steps: Seq<Scoped<T>>) -> int
    decreases steps.len(),
{
    if steps.len() == 0 {
        0
    } else {
        depth(steps.drop_last()) + (match steps.last() {
            Scoped::Install(_) => 1int,
            Scoped::PutBack => -1int,
        })
    }
}

/// Whatever calls begin and end while a value is installed, and however each of them ends, what was
/// installed before is installed again once all of them have ended.
pub proof fn what_was_installed_comes_back<T>(stack: Seq<Option<T>>, steps: Seq<Scoped<T>>)
    requires
        forall|k: int| 0 <= k <= steps.len() ==> depth(#[trigger] steps.take(k)) >= 0,
        depth(steps) == 0,
    ensures
        installs(stack, steps) == stack,
{
    assert(steps.take(steps.len() as int) =~= steps);
    lemma_installs(stack, steps);
    assert(installs(stack, steps).take(stack.len() as int) =~= installs(stack, steps));
}

/// What lies below the calls that have begun stays as it is.
proof fn lemma_installs<T>(stack: Seq<Option<T>>, steps: Seq<Scoped<T>>)
    requires
        forall|k: int| 0 <= k <= steps.len() ==> depth(#[trigger] steps.take(k)) >= 0,
    ensures
        installs(stack, steps).len() == stack.len() + depth(steps),
        installs(stack, steps).take(stack.len() as int) == stack,
    decreases steps.len(),
{
    if steps.len() == 0 {
        assert(stack.take(stack.len() as int) =~= stack);
    } else {
        let front = steps.drop_last();
        assert forall|k: int| 0 <= k <= front.len() implies depth(#[trigger] front.take(k)) >= 0 by {
            assert(front.take(k) =~= steps.take(k));
        }
        lemma_installs(stack, front);
        assert(steps.take(steps.len() as int) =~= steps);
        assert(installs(stack, steps).take(stack.len() as int) =~= stack);
    }
}

// ---------------------------------------------------------------------------------------------
// Threads and their values.
// ---------------------------------------------------------------------------------------------

/// A thread touches its value: what its initialiser makes if it has to run, and the value that is
/// there afterwards, given the one it found.
#[verifier::reject_recursive_types(T)]
pub struct Touch<T> {
    pub thread: u64,
    pub made: T,
    pub left: spec_fn(T) -> T,
}

/// The values of all threads after these touches, in the order in which they were made.
pub open spec fn values_after<T>(touches: Seq<Touch<T>>) -> Map<u64, T>
    decreases touches.len(),
{
    if touches.len() == 0 {
        Map::empty()
    } else {
        let before = values_after(touches.drop_last());
        let t = touches.last();
        let found = if before.dom().contains(t.thread) {
            before[t.thread]
        } else {
            t.made
        };
        before.insert(t.thread, (t.left)(found))
    }
}

/// The touches that one thread made.
pub open spec fn touches_of<T>(touches: Seq<Touch<T>>, thread: u64) -> Seq<Touch<T>>
    decreases touches.len(),
{
    if touches.len() == 0 {
        seq![]
    } else {
        let front = touches_of(touches.drop_last(), thread);
        if touches.last().thread == thread {
            front.push(touches.last())
        } else {
            front
        }
    }
}

/// How often the initialiser ran on one thread.
pub open spec fn made_on<T>(touches: Seq<Touch<T>>, thread: u64) -> nat
    decreases touches.len(),
{
    if touches.len() == 0 {
        0
    } else {
        let before = made_on(touches.drop_last(), thread);
        if touches.last().thread == thread && !values_after(touches.drop_last()).dom().contains(
            thread,
        ) {
            before + 1
        } else {
            before
        }
    }
}

/// What one thread does leaves the values of the others alone: a thread's value is what its own
/// touches, and no others, have made of it.
pub proof fn threads_are_kept_apart<T>(touches: Seq<Touch<T>>, thread: u64)
    ensures
        values_after(touches).dom().contains(thread) == values_after(
            touches_of(touches, thread),
        ).dom().contains(thread),
        values_after(touches).dom().contains(thread) ==> values_after(touches)[thread]
            == values_after(touches_of(touches, thread))[thread],
    decreases touches.len(),
{
    if touches.len() > 0 {
        threads_are_kept_apart(touches.drop_last(), thread);
        if touches.last().thread == thread {
            let front = touches_of(touches.drop_last(), thread);
            assert(front.push(touches.last()).drop_last() =~= front);
        }
    }
}

/// On each thread that touches its value, the initialiser runs exactly once.
pub proof fn each_thread_makes_its_value_once<T>(touches: Seq<Touch<T>>, thread: u64)
    ensures
        made_on(touches, thread) == (if touches_of(touches, thread).len() > 0 {
            1nat
        } else {
            0
        }),
        values_after(touches).dom().contains(thread) == (touches_of(touches, thread).len() > 0),
    decreases touches.len(),
{
    if touches.len() > 0 {
        each_thread_makes_its_value_once(touches.drop_last(), thread);
    }
}


/// What a thread finds when it touches its value: the one that is there, and where there is none
/// yet the one its initialiser makes.
pub proof fn what_a_touch_finds<T, I: Fn() -> T>(key: LocalKey<T, I>, v: T)
    ensures
        key.held() matches Some(w) ==> (key.finds(v) <==> v == w),
        key.held() is None ==> (key.finds(v) <==> call_ensures(key.maker(), (), v)),
        key.ready() <==> key.held() is Some || call_requires(key.maker(), ()),
{
}

} // verus!
