//! Starting a thread.
//!
//! What the thread is to run is handed over to it. If it never starts, nothing will ever take that
//! back, so it is freed here; and whatever was prepared for the start is given back.

use vstd::prelude::*;
use vstd::slice::{slice_subrange, slice_to_vec};

use crate::Errno;

verus! {

/// How a thread is started.
#[derive(Debug, Clone, Copy, PartialEq, Eq, Structural)]
pub enum Kind {
    /// With a stack of this size, and nobody joins it.
    Detached(usize),
    /// With a stack of this size, or the default for 0, to be joined.
    Joinable(usize),
    /// With the default stack, to be joined by its scope.
    Scoped,
}

/// The next call on the way to a thread.
#[derive(Debug, Clone, Copy, PartialEq, Eq, Structural)]
pub enum StartCall {
    /// Initialise the attributes.
    InitAttributes,
    /// Ask for a stack of this size.
    SetStack(usize),
    /// Ask for a detached thread.
    SetDetached,
    /// Have the thread give itself the name of the start before it runs anything. It does so
    /// itself, because on some platforms nobody else can.
    SetName,
    /// Create the thread, with the attributes.
    Create,
    /// Create the thread, without attributes.
    CreatePlain,
    /// Give the attributes back.
    DestroyAttributes,
    /// Free what the thread was to run.
    Free,
    /// Nothing: the thread runs.
    Started(usize),
    /// Nothing: there is no thread.
    Failed(Errno),
}

/// Where starting a thread stands.
#[derive(Debug, Clone, Copy, PartialEq, Eq, Structural)]
pub enum Stage {
    Init,
    Stack,
    Detach,
    Name,
    Create,
    Destroy { created: i32, thread: usize },
    Free { errno: Errno },
    Started { thread: usize },
    Failed { errno: Errno },
}

/// What a call came to: its return value, the `errno` it left, and the thread it created.
#[derive(Debug, Clone, Copy, PartialEq, Eq, Structural)]
pub struct Answer {
    pub returned: i32,
    pub errno: Errno,
    pub thread: usize,
}

/// Where it begins: a scoped thread needs no attributes.
pub open spec fn first(kind: Kind) -> Stage {
    match kind {
        Kind::Scoped => Stage::Create,
        _ => Stage::Init,
    }
}

/// On to creating the thread, by way of its name if it has one.
pub open spec fn prepared(named: bool) -> Stage {
    if named {
        Stage::Name
    } else {
        Stage::Create
    }
}

/// On after a thread was created, or was not.
pub open spec fn created(returned: i32, thread: usize) -> Stage {
    if returned != 0 {
        Stage::Free { errno: Errno(returned) }
    } else {
        Stage::Started { thread }
    }
}

impl Stage {
    /// The next call.
    pub open spec fn call_of(self, kind: Kind) -> StartCall {
        match self {
            Stage::Init => StartCall::InitAttributes,
            Stage::Stack => StartCall::SetStack(
                match kind {
                    Kind::Detached(bytes) => bytes,
                    Kind::Joinable(bytes) => bytes,
                    Kind::Scoped => 0,
                },
            ),
            Stage::Detach => StartCall::SetDetached,
            Stage::Name => StartCall::SetName,
            Stage::Create => match kind {
                Kind::Scoped => StartCall::CreatePlain,
                _ => StartCall::Create,
            },
            Stage::Destroy { .. } => StartCall::DestroyAttributes,
            Stage::Free { .. } => StartCall::Free,
            Stage::Started { thread } => StartCall::Started(thread),
            Stage::Failed { errno } => StartCall::Failed(errno),
        }
    }

    /// Where it stands once that call has returned. Only a detached thread gives up when its
    /// attributes cannot be initialised.
    pub open spec fn after(self, kind: Kind, named: bool, a: Answer) -> Stage {
        match self {
            Stage::Init => match kind {
                Kind::Detached(_) => if a.returned != 0 {
                    Stage::Free { errno: a.errno }
                } else {
                    Stage::Stack
                },
                Kind::Joinable(bytes) => if bytes != 0 {
                    Stage::Stack
                } else {
                    prepared(named)
                },
                Kind::Scoped => prepared(named),
            },
            Stage::Stack => match kind {
                Kind::Detached(_) => Stage::Detach,
                _ => prepared(named),
            },
            Stage::Detach => prepared(named),
            Stage::Name => Stage::Create,
            Stage::Create => match kind {
                Kind::Scoped => created(a.returned, a.thread),
                _ => Stage::Destroy { created: a.returned, thread: a.thread },
            },
            Stage::Destroy { created: returned, thread } => created(returned, thread),
            Stage::Free { errno } => Stage::Failed { errno },
            Stage::Started { .. } => self,
            Stage::Failed { .. } => self,
        }
    }
}

/// As much of a name as fits into `room` bytes.
pub open spec fn fitting(name: Seq<u8>, room: nat) -> Seq<u8> {
    if name.len() <= room {
        name
    } else {
        name.take(room as int)
    }
}

/// A thread being started.
#[derive(Debug)]
pub struct Start {
    kind: Kind,
    name: Option<Vec<u8>>,
    stage: Stage,
}

impl Start {
    /// How it is started.
    pub closed spec fn kind(&self) -> Kind {
        self.kind
    }

    /// The bytes of the thread's name.
    pub closed spec fn named(&self) -> Option<Seq<u8>> {
        match self.name {
            Some(n) => Some(n@),
            None => None,
        }
    }

    /// Where it stands.
    pub closed spec fn stage(&self) -> Stage {
        self.stage
    }

    /// Begin with a thread that has no name.
    pub fn new(kind: Kind) -> (r: Start)
        ensures
            r.kind() == kind,
            r.named() is None,
            r.stage() == first(kind),
    {
        let stage = match kind {
            Kind::Scoped => Stage::Create,
            _ => Stage::Init,
        };
        Start { kind, name: None, stage }
    }

    /// Begin with a thread to be joined, of this name.
    pub fn with_name(stack_bytes: usize, name: Vec<u8>) -> (r: Start)
        ensures
            r.kind() == Kind::Joinable(stack_bytes),
            r.named() == Some(name@),
            r.stage() == first(r.kind()),
    {
        Start { kind: Kind::Joinable(stack_bytes), name: Some(name), stage: Stage::Init }
    }

    /// The name the thread is to give itself, as much of it as there is room for in `room` bytes,
    /// one of which is its NUL.
    pub fn own_name(&self, room: usize) -> (r: Option<Vec<u8>>)
        requires
            room > 0,
        ensures
            match self.named() {
                None => r is None,
                Some(n) => r matches Some(c) && c@ == fitting(n, (room - 1) as nat).push(0),
            },
            self.named() matches Some(n) ==> (r matches Some(c) && c@ == (if n.len() < room {
                n.push(0)
            } else {
                n.take(room - 1).push(0)
            })),
    {
        match &self.name {
            None => None,
            Some(n) => {
                let len: usize = if n.len() < room {
                    n.len()
                } else {
                    room - 1
                };
                let mut c = slice_to_vec(slice_subrange(n.as_slice(), 0, len));
                assert(c@ =~= fitting(n@, (room - 1) as nat));
                c.push(0);
                Some(c)
            },
        }
    }

    /// The next call.
    pub fn call(&self) -> (r: StartCall)
        ensures
            r == self.stage().call_of(self.kind()),
    {
        match self.stage {
            Stage::Init => StartCall::InitAttributes,
            Stage::Stack => StartCall::SetStack(
                match self.kind {
                    Kind::Detached(bytes) => bytes,
                    Kind::Joinable(bytes) => bytes,
                    Kind::Scoped => 0,
                },
            ),
            Stage::Detach => StartCall::SetDetached,
            Stage::Name => StartCall::SetName,
            Stage::Create => match self.kind {
                Kind::Scoped => StartCall::CreatePlain,
                _ => StartCall::Create,
            },
            Stage::Destroy { .. } => StartCall::DestroyAttributes,
            Stage::Free { .. } => StartCall::Free,
            Stage::Started { thread } => StartCall::Started(thread),
            Stage::Failed { errno } => StartCall::Failed(errno),
        }
    }

    /// Take what the call came to.
    pub fn step(&mut self, a: Answer)
        ensures
            final(self).stage() == old(self).stage().after(
                old(self).kind(),
                old(self).named() is Some,
                a,
            ),
            final(self).kind() == old(self).kind(),
            final(self).named() == old(self).named(),
    {
        let to_create = if self.name.is_some() {
            Stage::Name
        } else {
            Stage::Create
        };
        self.stage = match self.stage {
            Stage::Init => match self.kind {
                Kind::Detached(_) => if a.returned != 0 {
                    Stage::Free { errno: a.errno }
                } else {
                    Stage::Stack
                },
                Kind::Joinable(bytes) => if bytes != 0 {
                    Stage::Stack
                } else {
                    to_create
                },
                Kind::Scoped => to_create,
            },
            Stage::Stack => match self.kind {
                Kind::Detached(_) => Stage::Detach,
                _ => to_create,
            },
            Stage::Detach => to_create,
            Stage::Name => Stage::Create,
            Stage::Create => match self.kind {
                Kind::Scoped => then_started(a.returned, a.thread),
                _ => Stage::Destroy { created: a.returned, thread: a.thread },
            },
            Stage::Destroy { created, thread } => then_started(created, thread),
            Stage::Free { errno } => Stage::Failed { errno },
            Stage::Started { thread } => Stage::Started { thread },
            Stage::Failed { errno } => Stage::Failed { errno },
        };
    }

    /// The thread, once it runs, or why it does not.
    pub fn outcome(&self) -> (r: Option<Result<usize, Errno>>)
        ensures
            r == (match self.stage() {
                Stage::Started { thread } => Some(Ok::<usize, Errno>(thread)),
                Stage::Failed { errno } => Some(Err::<usize, Errno>(errno)),
                _ => None,
            }),
    {
        match self.stage {
            Stage::Started { thread } => Some(Ok(thread)),
            Stage::Failed { errno } => Some(Err(errno)),
            _ => None,
        }
    }
}

/// On after a thread was created, or was not.
fn then_started(returned: i32, thread: usize) -> (r: Stage)
    ensures
        r == created(returned, thread),
{
    if returned != 0 {
        Stage::Free { errno: Errno(returned) }
    } else {
        Stage::Started { thread }
    }
}

/// What a thread was to run is freed exactly when the thread never started: a start fails only
/// after it has been freed, and a thread that runs still has it.
pub proof fn a_failed_start_leaks_nothing(s: Stage, kind: Kind, named: bool, a: Answer)
    requires
        s.after(kind, named, a) != s,
    ensures
        s.after(kind, named, a) is Failed <==> s is Free,
        s.after(kind, named, a) is Started ==> s is Create || s is Destroy,
        s is Free ==> s.call_of(kind) == StartCall::Free,
{
}

/// Attributes that were initialised are given back, whether or not the thread started.
pub proof fn attributes_are_given_back(s: Stage, kind: Kind, named: bool, a: Answer)
    requires
        !(kind is Scoped),
    ensures
        s is Create ==> s.after(kind, named, a).call_of(kind) == StartCall::DestroyAttributes,
        s.after(kind, named, a) is Started && s.after(kind, named, a) != s ==> s is Destroy,
{
}

/// Where a start stands after some calls have returned.
pub open spec fn run(s: Stage, kind: Kind, named: bool, feed: Seq<Answer>) -> Stage
    decreases feed.len(),
{
    if feed.len() == 0 {
        s
    } else {
        run(s.after(kind, named, feed[0]), kind, named, feed.drop_first())
    }
}

/// The calls that were made while these returned.
pub open spec fn calls(s: Stage, kind: Kind, named: bool, feed: Seq<Answer>) -> Seq<StartCall>
    decreases feed.len(),
{
    if feed.len() == 0 {
        seq![]
    } else {
        seq![s.call_of(kind)] + calls(
            s.after(kind, named, feed[0]),
            kind,
            named,
            feed.drop_first(),
        )
    }
}

/// A thread with a name that was started is one that was told to give itself the name before it
/// runs anything, on a stack of the size that was asked for.
pub proof fn a_named_thread_has_its_name(bytes: usize, feed: Seq<Answer>)
    requires
        run(first(Kind::Joinable(bytes)), Kind::Joinable(bytes), true, feed) is Started,
    ensures
        calls(first(Kind::Joinable(bytes)), Kind::Joinable(bytes), true, feed).contains(
            StartCall::SetName,
        ),
        bytes != 0 ==> calls(first(Kind::Joinable(bytes)), Kind::Joinable(bytes), true, feed)
            .contains(StartCall::SetStack(bytes)),
{
    lemma_on_the_way(Stage::Init, bytes, feed);
}

/// Whichever call comes next, those that are still owed follow.
proof fn lemma_on_the_way(s: Stage, bytes: usize, feed: Seq<Answer>)
    requires
        run(s, Kind::Joinable(bytes), true, feed) is Started,
        s is Init || s is Stack || s is Name,
    ensures
        calls(s, Kind::Joinable(bytes), true, feed).contains(StartCall::SetName),
        bytes != 0 && !(s is Name) ==> calls(s, Kind::Joinable(bytes), true, feed).contains(
            StartCall::SetStack(bytes),
        ),
    decreases feed.len(),
{
    let kind = Kind::Joinable(bytes);
    if feed.len() > 0 {
        let next = s.after(kind, true, feed[0]);
        let rest = calls(next, kind, true, feed.drop_first());
        let all = calls(s, kind, true, feed);
        assert(all =~= seq![s.call_of(kind)] + rest);
        assert(all[0] == s.call_of(kind));
        if !(s is Name) {
            lemma_on_the_way(next, bytes, feed.drop_first());
            let j = choose|j: int| 0 <= j < rest.len() && rest[j] == StartCall::SetName;
            assert(all[j + 1] == StartCall::SetName);
            if bytes != 0 && s is Init {
                let k = choose|k: int|
                    0 <= k < rest.len() && rest[k] == StartCall::SetStack(bytes);
                assert(all[k + 1] == StartCall::SetStack(bytes));
            }
        }
    }
}

/// The name is given before the thread is created, so that it has it from its first moment on.
pub proof fn the_name_comes_first(s: Stage, kind: Kind, a: Answer)
    requires
        !(kind is Scoped),
        s.after(kind, true, a) != s,
        s.after(kind, true, a) is Create,
    ensures
        s.call_of(kind) == StartCall::SetName,
{
}


/// What each step calls: the stack of the size that was asked for, and attributes only where they
/// were initialised.
pub proof fn each_step_makes_its_call(
    bytes: usize,
    returned: i32,
    thread: usize,
    errno: Errno,
    kind: Kind,
)
    ensures
        Stage::Init.call_of(kind) == StartCall::InitAttributes,
        Stage::Stack.call_of(Kind::Detached(bytes)) == StartCall::SetStack(bytes),
        Stage::Stack.call_of(Kind::Joinable(bytes)) == StartCall::SetStack(bytes),
        Stage::Detach.call_of(kind) == StartCall::SetDetached,
        Stage::Name.call_of(kind) == StartCall::SetName,
        Stage::Create.call_of(Kind::Detached(bytes)) == StartCall::Create,
        Stage::Create.call_of(Kind::Joinable(bytes)) == StartCall::Create,
        Stage::Create.call_of(Kind::Scoped) == StartCall::CreatePlain,
        (Stage::Destroy { created: returned, thread }).call_of(kind)
            == StartCall::DestroyAttributes,
        (Stage::Free { errno }).call_of(kind) == StartCall::Free,
        (Stage::Started { thread }).call_of(kind) == StartCall::Started(thread),
        (Stage::Failed { errno }).call_of(kind) == StartCall::Failed(errno),
{
}

/// What each answer leads to. A detached thread is given its stack and asked to be detached, and
/// gives up where its attributes cannot be had; one that is joined is given a stack only where one
/// was asked for; a scoped one needs no attributes. A thread that was created runs, and one that
/// was not is reported with what the creation returned.
pub proof fn each_answer_leads_on(
    bytes: usize,
    named: bool,
    a: Answer,
    returned: i32,
    thread: usize,
    errno: Errno,
)
    ensures
        ({
            let ready = if named {
                Stage::Name
            } else {
                Stage::Create
            };
            let detached = Kind::Detached(bytes);
            let joined = Kind::Joinable(bytes);
            let outcome = if returned == 0 {
                Stage::Started { thread }
            } else {
                Stage::Free { errno: Errno(returned) }
            };
            &&& first(detached) == Stage::Init && first(joined) == Stage::Init
            &&& first(Kind::Scoped) == Stage::Create
            &&& Stage::Init.after(detached, named, a) == (if a.returned == 0 {
                Stage::Stack
            } else {
                Stage::Free { errno: a.errno }
            })
            &&& Stage::Init.after(joined, named, a) == (if bytes == 0 {
                ready
            } else {
                Stage::Stack
            })
            &&& Stage::Stack.after(detached, named, a) == Stage::Detach
            &&& Stage::Stack.after(joined, named, a) == ready
            &&& Stage::Detach.after(detached, named, a) == ready
            &&& Stage::Name.after(joined, named, a) == Stage::Create
            &&& Stage::Create.after(detached, named, a) == (Stage::Destroy {
                created: a.returned,
                thread: a.thread,
            })
            &&& Stage::Create.after(joined, named, a) == (Stage::Destroy {
                created: a.returned,
                thread: a.thread,
            })
            &&& (Stage::Destroy { created: returned, thread }).after(joined, named, a) == outcome
            &&& (Stage::Destroy { created: returned, thread }).after(detached, named, a) == outcome
            &&& Stage::Create.after(Kind::Scoped, named, a) == (if a.returned == 0 {
                Stage::Started { thread: a.thread }
            } else {
                Stage::Free { errno: Errno(a.returned) }
            })
            &&& (Stage::Free { errno }).after(joined, named, a) == (Stage::Failed { errno })
        }),
{
}


/// What has come to its end stays there: a thread that runs, and a start that failed.
pub proof fn the_end_is_the_end(s: Stage, kind: Kind, named: bool, a: Answer)
    requires
        s is Started || s is Failed,
    ensures
        s.after(kind, named, a) == s,
{
}

} // verus!
