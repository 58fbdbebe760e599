//! Running another program and collecting what it said.
//!
//! A [`Command`] says what to run, with which arguments and in which environment; everything the
//! new process needs is worked out before the `fork`, because after it nothing may allocate. What
//! the new process does up to its `execve` is [`setup`], and what the old one does with the running
//! program is [`child`].
//!
//! Still no stdin and no working directory: each is a way to get fork and exec wrong and nothing
//! has wanted them.

use vstd::prelude::*;
use vstd::slice::slice_to_vec;

use crate::bytes;
use crate::env;
use crate::path;
use crate::path::AsPath;

pub mod child;
pub mod laws;
pub mod setup;

pub use crate::command::child::Child;

verus! {

/// What a finished program left behind.
pub struct Output {
    /// The exit status: 0 is success.
    pub code: i32,
    /// Everything it wrote to stdout.
    pub stdout: Vec<u8>,
    /// Everything it wrote to stderr.
    pub stderr: Vec<u8>,
}

impl Output {
    /// Whether it exited zero.
    pub fn success(&self) -> (r: bool)
        ensures
            r == (self.code == 0),
    {
        self.code == 0
    }
}

/// The byte between a variable's name and its value.
pub const EQUALS: u8 = 61;

/// The name an entry of an environment sets, with its `=`. An entry without one is all name.
pub open spec fn key_of(entry: Seq<u8>) -> Seq<u8> {
    match bytes::first_of(entry, EQUALS) {
        Some(i) => entry.take(i + 1),
        None => entry,
    }
}

/// The entries that do not begin with `key`, in order.
pub open spec fn without(entries: Seq<Seq<u8>>, key: Seq<u8>) -> Seq<Seq<u8>>
    decreases entries.len(),
{
    if entries.len() == 0 {
        seq![]
    } else {
        let front = without(entries.drop_last(), key);
        if bytes::begins(entries.last(), key) {
            front
        } else {
            front.push(entries.last())
        }
    }
}

/// An environment with one entry set: whatever set the same name goes, and the entry comes last.
pub open spec fn overridden(entries: Seq<Seq<u8>>, entry: Seq<u8>) -> Seq<Seq<u8>> {
    without(entries, key_of(entry)).push(entry)
}

/// An environment with several entries set, one after the other.
pub open spec fn environment_of(inherited: Seq<Seq<u8>>, overrides: Seq<Seq<u8>>) -> Seq<Seq<u8>>
    decreases overrides.len(),
{
    if overrides.len() == 0 {
        inherited
    } else {
        overridden(environment_of(inherited, overrides.drop_last()), overrides.last())
    }
}

/// A program's name inside a directory.
pub open spec fn inside(dir: Seq<u8>, program: Seq<u8>) -> Seq<u8> {
    if dir.len() > 0 && dir.last() == path::MAIN_SEPARATOR_BYTE {
        dir + program
    } else {
        dir + path::root() + program
    }
}

/// Where a program is looked for: where it says, or in each directory of the search path.
pub open spec fn candidates_of(program: Seq<u8>, search: Seq<u8>) -> Seq<Seq<u8>> {
    if program.contains(path::MAIN_SEPARATOR_BYTE) {
        seq![program]
    } else {
        bytes::fields(search, env::PATH_SEPARATOR).map_values(|dir: Seq<u8>| inside(dir, program))
    }
}

/// Each string of a list with its NUL.
pub open spec fn terminated(list: Seq<Seq<u8>>) -> Seq<Seq<u8>> {
    list.map_values(|s: Seq<u8>| s.push(0))
}

/// Where to look for a program named without a slash, given the value of `PATH`.
///
/// Worked out before the fork: the alternative is to search in the child, which allocates after a
/// `fork` that may have left another thread's locks held.
pub fn candidates(program: &[u8], search: &[u8]) -> (r: Vec<Vec<u8>>)
    ensures
        bytes::owned_views(r@) == terminated(candidates_of(program@, search@)),
        ({
            let dirs = bytes::fields(search@, env::PATH_SEPARATOR);
            if program@.contains(path::MAIN_SEPARATOR_BYTE) {
                r@.len() == 1 && r@[0]@ == program@.push(0)
            } else {
                &&& r@.len() == dirs.len()
                &&& forall|k: int|
                    0 <= k < r@.len() ==> (#[trigger] r@[k])@ == dirs[k] + (if dirs[k].last()
                        == path::MAIN_SEPARATOR_BYTE {
                        seq![]
                    } else {
                        seq![path::MAIN_SEPARATOR_BYTE]
                    }) + program@.push(0)
            }
        }),
{
    let r = places(program, search);
    proof {
        laws::the_places_are_tried(r@, program@, search@);
    }
    r
}

/// Where to look for a program, NUL-terminated.
fn places(program: &[u8], search: &[u8]) -> (r: Vec<Vec<u8>>)
    ensures
        bytes::owned_views(r@) == terminated(candidates_of(program@, search@)),
{
    let mut out: Vec<Vec<u8>> = Vec::new();
    let sep: u8 = path::MAIN_SEPARATOR_BYTE;
    let ghost goal = terminated(candidates_of(program@, search@));
    proof {
        bytes::lemma_first_of(program@, sep);
    }
    if bytes::position(program, sep).is_some() {
        proof {
            let i = bytes::first_of(program@, sep)->0;
            assert(program@.contains(program@[i]));
        }
        out.push(bytes::nul_terminated(program));
        assert(bytes::owned_views(out@) =~= goal);
        return out;
    }
    assert(!program@.contains(sep));
    let dirs = env::split_paths(search);
    let ghost names = bytes::fields(search@, env::PATH_SEPARATOR);
    let mut i: usize = 0;
    while i < dirs.len()
        invariant
            i <= dirs.len(),
            sep == path::MAIN_SEPARATOR_BYTE,
            !program@.contains(sep),
            bytes::views(dirs@) == names,
            names == bytes::fields(search@, env::PATH_SEPARATOR),
            goal == terminated(candidates_of(program@, search@)),
            out@.len() == i,
            forall|k: int| 0 <= k < i ==> (#[trigger] out@[k])@ == goal[k],
        decreases dirs.len() - i,
    {
        let dir = dirs[i];
        proof {
            assert(bytes::views(dirs@)[i as int] == dir@);
            bytes::fields_are_clean(search@, env::PATH_SEPARATOR, i as int);
        }
        let mut candidate = slice_to_vec(dir);
        if dir[dir.len() - 1] != sep {
            candidate.push(sep);
            assert(candidate@ =~= dir@ + path::root());
        }
        bytes::extend(&mut candidate, program);
        assert(candidate@ == inside(dir@, program@));
        out.push(bytes::nul_terminated(candidate.as_slice()));
        i = i + 1;
    }
    assert(bytes::owned_views(out@) =~= goal);
    out
}

/// A program to run.
pub struct Command {
    program: Vec<u8>,
    args: Vec<Vec<u8>>,
    /// Overrides on top of this process's environment, as `KEY=VALUE`.
    overrides: Vec<Vec<u8>>,
}

/// What a command says.
#[verifier::ext_equal]
pub struct CommandView {
    pub program: Seq<u8>,
    pub args: Seq<Seq<u8>>,
    pub overrides: Seq<Seq<u8>>,
}

impl View for Command {
    type V = CommandView;

    closed spec fn view(&self) -> CommandView {
        CommandView {
            program: self.program@,
            args: bytes::owned_views(self.args@),
            overrides: bytes::owned_views(self.overrides@),
        }
    }
}

/// What running a program to completion does next.
#[derive(Copy, Clone, PartialEq, Eq, Structural, Debug)]
pub enum OutputStep {
    /// Wait for either pipe, for as long as it takes, and read what is there.
    Read,
    /// Wait for it to exit.
    Wait,
    /// Take what it said, with this code.
    Collect(i32),
}

/// Everything the new process needs, worked out before the fork.
pub struct Plan {
    /// Where to look for the program, in order.
    pub tries: Vec<Vec<u8>>,
    /// Its arguments, its own name first.
    pub argv: Vec<Vec<u8>>,
    /// Its environment.
    pub envp: Vec<Vec<u8>>,
}

/// A list with every string NUL-terminated.
fn terminate_all(list: &Vec<Vec<u8>>) -> (r: Vec<Vec<u8>>)
    ensures
        bytes::owned_views(r@) == terminated(bytes::owned_views(list@)),
{
    let ghost goal = terminated(bytes::owned_views(list@));
    let mut out: Vec<Vec<u8>> = Vec::new();
    let mut i: usize = 0;
    while i < list.len()
        invariant
            i <= list.len(),
            goal == terminated(bytes::owned_views(list@)),
            out@.len() == i,
            forall|k: int| 0 <= k < i ==> (#[trigger] out@[k])@ == goal[k],
        decreases list.len() - i,
    {
        out.push(bytes::nul_terminated(list[i].as_slice()));
        i = i + 1;
    }
    assert(bytes::owned_views(out@) =~= goal);
    out
}

/// The entries that do not begin with `key`.
fn drop_key(entries: &Vec<Vec<u8>>, key: &[u8]) -> (r: Vec<Vec<u8>>)
    ensures
        bytes::owned_views(r@) == without(bytes::owned_views(entries@), key@),
{
    let ghost all = bytes::owned_views(entries@);
    let mut out: Vec<Vec<u8>> = Vec::new();
    let mut i: usize = 0;
    assert(all.take(0) =~= seq![]);
    assert(bytes::owned_views(out@) =~= without(all.take(0), key@));
    while i < entries.len()
        invariant
            i <= entries.len(),
            all == bytes::owned_views(entries@),
            bytes::owned_views(out@) == without(all.take(i as int), key@),
        decreases entries.len() - i,
    {
        let entry = entries[i].as_slice();
        proof {
            assert(all.take(i + 1).drop_last() =~= all.take(i as int));
            assert(all.take(i + 1).last() == entry@);
        }
        if !bytes::starts_with(entry, key) {
            let ghost before = out@;
            out.push(slice_to_vec(entry));
            assert(bytes::owned_views(out@) =~= bytes::owned_views(before).push(entry@));
        }
        i = i + 1;
    }
    assert(all.take(i as int) =~= all);
    out
}

impl Command {
    /// Name a program.
    pub fn new<P: AsPath + ?Sized>(program: &P) -> (r: Command)
        ensures
            r@.program == program.path_bytes(),
            r@.args == Seq::<Seq<u8>>::empty(),
            r@.overrides == Seq::<Seq<u8>>::empty(),
    {
        let r = Command {
            program: slice_to_vec(program.as_path().as_bytes()),
            args: Vec::new(),
            overrides: Vec::new(),
        };
        assert(r@.args =~= Seq::<Seq<u8>>::empty());
        assert(r@.overrides =~= Seq::<Seq<u8>>::empty());
        r
    }

    /// Add one argument.
    pub fn arg(self, arg: &[u8]) -> (r: Command)
        ensures
            r@ == (CommandView { args: self@.args.push(arg@), ..self@ }),
    {
        let mut all = self;
        all.args.push(slice_to_vec(arg));
        assert(all@.args =~= self@.args.push(arg@));
        all
    }

    /// Add several arguments, in order.
    pub fn args(self, args: &[&[u8]]) -> (r: Command)
        ensures
            r@ == (CommandView { args: self@.args + bytes::views(args@), ..self@ }),
    {
        let mut all = self;
        let ghost list = bytes::views(args@);
        let mut i: usize = 0;
        assert(self@.args + list.take(0) =~= self@.args);
        while i < args.len()
            invariant
                i <= args.len(),
                list == bytes::views(args@),
                all@ == (CommandView { args: self@.args + list.take(i as int), ..self@ }),
            decreases args.len() - i,
        {
            all = all.arg(args[i]);
            assert(self@.args + list.take(i + 1) =~= (self@.args + list.take(i as int)).push(
                args@[i as int]@,
            ));
            i = i + 1;
        }
        assert(list.take(i as int) =~= list);
        all
    }

    /// Set a variable in the child's environment, on top of this process's own.
    ///
    /// Inherit-and-override rather than replace, because the callers that need this are setting
    /// one or two things for a toolchain that reads a dozen more. Setting the same key twice keeps
    /// the last, as a shell would.
    pub fn env(self, key: &[u8], value: &[u8]) -> (r: Command)
        ensures
            r@ == (CommandView {
                overrides: self@.overrides.push(key@.push(EQUALS) + value@),
                ..self@
            }),
    {
        let mut all = self;
        let mut entry = slice_to_vec(key);
        entry.push(EQUALS);
        bytes::extend(&mut entry, value);
        all.overrides.push(entry);
        assert(all@.overrides =~= self@.overrides.push(key@.push(EQUALS) + value@));
        all
    }

    /// What to do next to run a started program to completion and collect both streams: read both
    /// pipes until both have ended, wait for it, and take what it said.
    ///
    /// A program that ran and exited non-zero is an [`Output`] with a non-zero code. Unbounded: a
    /// caller that needs a deadline keeps its own.
    pub fn output(child: &Child) -> (r: OutputStep)
        ensures
            r == (if !(child@.out.done && child@.err.done) {
                OutputStep::Read
            } else {
                match child@.status {
                    None => OutputStep::Wait,
                    Some(code) => OutputStep::Collect(code),
                }
            }),
    {
        if !child.drained() {
            return OutputStep::Read;
        }
        match child.waits_for() {
            Ok(code) => OutputStep::Collect(code),
            Err(_) => OutputStep::Wait,
        }
    }

    /// The environment of the program, given this process's own.
    pub fn environment(&self, inherited: Vec<Vec<u8>>) -> (r: Vec<Vec<u8>>)
        ensures
            bytes::owned_views(r@) == terminated(
                environment_of(bytes::owned_views(inherited@), self@.overrides),
            ),
    {
        let ghost own = bytes::owned_views(inherited@);
        let ghost set = self@.overrides;
        let mut entries = inherited;
        let mut i: usize = 0;
        assert(set.take(0) =~= seq![]);
        while i < self.overrides.len()
            invariant
                i <= self.overrides.len(),
                set == bytes::owned_views(self.overrides@),
                bytes::owned_views(entries@) == environment_of(own, set.take(i as int)),
            decreases self.overrides.len() - i,
        {
            let entry = self.overrides[i].as_slice();
            proof {
                bytes::lemma_first_of(entry@, EQUALS);
                assert(set.take(i + 1).drop_last() =~= set.take(i as int));
                assert(set.take(i + 1).last() == entry@);
            }
            // The key with its `=`, so that one name does not match another that it begins.
            let key_end: usize = match bytes::position(entry, EQUALS) {
                Some(at) => at + 1,
                None => entry.len(),
            };
            let key = vstd::slice::slice_subrange(entry, 0, key_end);
            assert(key@ =~= key_of(entry@));
            entries = drop_key(&entries, key);
            let ghost kept = entries@;
            entries.push(slice_to_vec(entry));
            assert(bytes::owned_views(entries@) =~= bytes::owned_views(kept).push(entry@));
            i = i + 1;
        }
        assert(set.take(i as int) =~= set);
        terminate_all(&entries)
    }

    /// Everything the new process needs, given the value of `PATH` and this process's environment.
    ///
    /// A program that cannot be found is no reason not to start: the child starts, finds nothing
    /// to become, and exits 127.
    pub fn spawn(self, search: Option<Vec<u8>>, inherited: Vec<Vec<u8>>) -> (r: Plan)
        ensures
            bytes::owned_views(r.tries@) == terminated(
                candidates_of(
                    self@.program,
                    match search {
                        Some(v) => v@,
                        None => Seq::empty(),
                    },
                ),
            ),
            ({
                let dirs = match search {
                    Some(v) => v@,
                    None => Seq::<u8>::empty(),
                };
                let fields = bytes::fields(dirs, env::PATH_SEPARATOR);
                if self@.program.contains(path::MAIN_SEPARATOR_BYTE) {
                    r.tries@.len() == 1 && r.tries@[0]@ == self@.program.push(0)
                } else {
                    &&& r.tries@.len() == fields.len()
                    &&& forall|k: int|
                        0 <= k < fields.len() ==> (#[trigger] r.tries@[k])@ == fields[k] + (
                        if fields[k].last() == path::MAIN_SEPARATOR_BYTE {
                            seq![]
                        } else {
                            seq![path::MAIN_SEPARATOR_BYTE]
                        }) + self@.program.push(0)
                }
            }),
            r.argv@.len() == self@.args.len() + 1,
            r.argv@[0]@ == self@.program.push(0),
            forall|k: int|
                1 <= k < r.argv@.len() ==> (#[trigger] r.argv@[k])@ == self@.args[k - 1].push(0),
            bytes::owned_views(r.argv@) == terminated(seq![self@.program] + self@.args),
            bytes::owned_views(r.envp@) == terminated(
                environment_of(bytes::owned_views(inherited@), self@.overrides),
            ),
    {
        let dirs = match search {
            Some(v) => v,
            None => Vec::new(),
        };
        let tries = candidates(self.program.as_slice(), dirs.as_slice());
        let envp = self.environment(inherited);
        let ghost rest = bytes::owned_views(self.args@);
        let mut argv: Vec<Vec<u8>> = Vec::new();
        argv.push(bytes::nul_terminated(self.program.as_slice()));
        let mut args = terminate_all(&self.args);
        let ghost last = args@;
        argv.append(&mut args);
        proof {
            let goal = terminated(seq![self@.program] + self@.args);
            let first = self@.program.push(0);
            assert(bytes::owned_views(last).len() == rest.len());
            assert forall|k: int| 0 <= k < argv@.len() implies (#[trigger] argv@[k])@ == goal[k] by {
                if k > 0 {
                    assert(argv@[k] == last[k - 1]);
                    assert(bytes::owned_views(last)[k - 1] == rest[k - 1].push(0));
                } else {
                    assert(argv@[0]@ == first);
                }
            }
            assert(bytes::owned_views(argv@) =~= goal);
            laws::the_places_are_tried(tries@, self@.program, dirs@);
            assert(goal.len() == self@.args.len() + 1);
        }
        Plan { tries, argv, envp }
    }
}

} // verus!
