//! Removing a directory and everything under it.
//!
//! The only thing here that can destroy something the caller did not name. What stops it is that
//! a name is asked about with `lstat`: a link pointing out of the tree is a name, which is
//! removed, and only a real directory is descended into.

use vstd::prelude::*;

use crate::file;
use crate::file::{Metadata, NameKind};
use crate::path;
use crate::path::laws;
use crate::path::{Path, PathBuf};

verus! {

/// What removing a tree asks for next.
pub enum Todo {
    /// `opendir` this name.
    Open(Vec<u8>),
    /// Read the next entry of the directory opened last and not yet closed.
    Next,
    /// `lstat` this name.
    Inspect(Vec<u8>),
    /// `unlink` this name.
    Unlink(Vec<u8>),
    /// Close the directory opened last and not yet closed, and `rmdir` this name.
    Leave(Vec<u8>),
    /// Nothing: it is over.
    Done,
}

/// What came of it.
pub enum Event {
    /// Whether the directory could be opened.
    Opened(bool),
    /// The next entry's name, if there is one.
    Entry(Option<Vec<u8>>),
    /// What `lstat` found, if it found anything.
    Inspected(Option<Metadata>),
    /// The name was unlinked, or could not be.
    Unlinked,
    /// The directory was closed and removed, or could not be.
    Left,
}

/// What came of it, as far as it makes a difference.
pub enum Answer {
    Opened(bool),
    Entry(Option<Seq<u8>>),
    /// What the name is.
    Inspected(NameKind),
    Unlinked,
    Left,
}

impl View for Event {
    type V = Answer;

    open spec fn view(&self) -> Answer {
        match *self {
            Event::Opened(ok) => Answer::Opened(ok),
            Event::Entry(Some(name)) => Answer::Entry(Some(name@)),
            Event::Entry(None) => Answer::Entry(None),
            Event::Inspected(Some(m)) => Answer::Inspected(m.kind()),
            Event::Inspected(None) => Answer::Inspected(NameKind::Other),
            Event::Unlinked => Answer::Unlinked,
            Event::Left => Answer::Left,
        }
    }
}

/// Where the removal of a tree stands.
pub enum Stage {
    Open(Seq<u8>),
    Next,
    Inspect(Seq<u8>),
    Unlink(Seq<u8>),
    Leave,
    Done,
}

/// A removal under way: the directories that are open, outermost first, and what comes next.
#[verifier::ext_equal]
pub struct Removal {
    pub dirs: Seq<Seq<u8>>,
    pub at: Stage,
}

/// Something that was removed.
pub enum Removed {
    /// A name.
    Name(Seq<u8>),
    /// A directory.
    Dir(Seq<u8>),
}

impl Removal {
    /// On to the next entry of the innermost open directory, if one is open.
    pub open spec fn resume(self) -> Removal {
        Removal {
            at: if self.dirs.len() > 0 {
                Stage::Next
            } else {
                Stage::Done
            },
            ..self
        }
    }

    /// What is next once an answer has come.
    ///
    /// A directory that cannot be opened is passed over, `.` and `..` are not followed, and a name
    /// inside the tree is descended into exactly when it is a directory itself. The name the
    /// removal began with is unlinked if it is a link; opening anything else that is not a
    /// directory fails.
    pub open spec fn step(self, answer: Answer) -> Removal {
        match (self.at, answer) {
            (Stage::Open(p), Answer::Opened(ok)) => if ok {
                Removal { dirs: self.dirs.push(p), at: Stage::Next }
            } else {
                self.resume()
            },
            (Stage::Next, Answer::Entry(entry)) => match entry {
                None => Removal { at: Stage::Leave, ..self },
                Some(name) => if file::dots(name) || self.dirs.len() == 0 {
                    self
                } else {
                    Removal { at: Stage::Inspect(path::join_of(self.dirs.last(), name)), ..self }
                },
            },
            (Stage::Inspect(p), Answer::Inspected(kind)) => if kind == NameKind::Directory || (kind
                == NameKind::Other && self.dirs.len() == 0) {
                Removal { at: Stage::Open(p), ..self }
            } else {
                Removal { at: Stage::Unlink(p), ..self }
            },
            (Stage::Unlink(_), Answer::Unlinked) => self.resume(),
            (Stage::Leave, Answer::Left) => if self.dirs.len() > 0 {
                Removal { dirs: self.dirs.drop_last(), ..self }.resume()
            } else {
                self.resume()
            },
            _ => self,
        }
    }

    /// What has been removed once an answer has come.
    pub open spec fn removed(self, answer: Answer) -> Seq<Removed> {
        match (self.at, answer) {
            (Stage::Unlink(p), Answer::Unlinked) => seq![Removed::Name(p)],
            (Stage::Leave, Answer::Left) => if self.dirs.len() > 0 {
                seq![Removed::Dir(self.dirs.last())]
            } else {
                seq![]
            },
            _ => seq![],
        }
    }

    /// Whether `todo` is what comes next.
    pub open spec fn asks(self, todo: Todo) -> bool {
        match self.at {
            Stage::Open(p) => todo matches Todo::Open(c) && c@ == p.push(0),
            Stage::Next => todo is Next,
            Stage::Inspect(p) => todo matches Todo::Inspect(c) && c@ == p.push(0),
            Stage::Unlink(p) => todo matches Todo::Unlink(c) && c@ == p.push(0),
            Stage::Leave => if self.dirs.len() > 0 {
                todo matches Todo::Leave(c) && c@ == self.dirs.last().push(0)
            } else {
                todo is Done
            },
            Stage::Done => todo is Done,
        }
    }
}

/// Where the removal of a tree stands.
enum At {
    Open(PathBuf),
    Next,
    Inspect(PathBuf),
    Unlink(PathBuf),
    Leave,
    Done,
}

/// The removal of a directory and everything under it, ignoring failures.
///
/// Ignoring them is deliberate: a scratch directory that outlives the process is a wasted inode
/// rather than a correctness problem.
pub struct RemoveDirAll {
    dirs: Vec<PathBuf>,
    at: At,
}

impl View for RemoveDirAll {
    type V = Removal;

    closed spec fn view(&self) -> Removal {
        Removal {
            dirs: file::path_views(self.dirs@),
            at: match self.at {
                At::Open(p) => Stage::Open(p@),
                At::Next => Stage::Next,
                At::Inspect(p) => Stage::Inspect(p@),
                At::Unlink(p) => Stage::Unlink(p@),
                At::Leave => Stage::Leave,
                At::Done => Stage::Done,
            },
        }
    }
}

/// Start removing a directory and everything under it.
pub fn remove_dir_all(p: Path<'_>) -> (r: RemoveDirAll)
    ensures
        r@ == fresh(p@),
{
    let r = RemoveDirAll { dirs: Vec::new(), at: At::Inspect(p.to_path_buf()) };
    assert(r@.dirs =~= seq![]);
    r
}

impl RemoveDirAll {
    /// What to do next.
    pub fn todo(&self) -> (r: Todo)
        ensures
            self@.asks(r),
            match self@.at {
                Stage::Open(p) => r matches Todo::Open(c) && c@ == p.push(0),
                Stage::Next => r is Next,
                Stage::Inspect(p) => r matches Todo::Inspect(c) && c@ == p.push(0),
                Stage::Unlink(p) => r matches Todo::Unlink(c) && c@ == p.push(0),
                Stage::Leave => if self@.dirs.len() > 0 {
                    r matches Todo::Leave(c) && c@ == self@.dirs.last().push(0)
                } else {
                    r is Done
                },
                Stage::Done => r is Done,
            },
    {
        match &self.at {
            At::Open(p) => Todo::Open(p.as_path().as_c()),
            At::Next => Todo::Next,
            At::Inspect(p) => Todo::Inspect(p.as_path().as_c()),
            At::Unlink(p) => Todo::Unlink(p.as_path().as_c()),
            At::Leave => {
                let n: usize = self.dirs.len();
                if n > 0 {
                    Todo::Leave(self.dirs[n - 1].as_path().as_c())
                } else {
                    Todo::Done
                }
            },
            At::Done => Todo::Done,
        }
    }

    /// On to the next entry of the innermost open directory, if one is open.
    fn resume(&mut self)
        ensures
            final(self)@ == old(self)@.resume(),
    {
        if self.dirs.len() > 0 {
            self.at = At::Next;
        } else {
            self.at = At::Done;
        }
    }

    /// Take what came of it. An answer to something that was not asked changes nothing.
    pub fn step(&mut self, event: Event)
        ensures
            final(self)@ == old(self)@.step(event@),
    {
        let ghost before = self@;
        let mut at = At::Done;
        std::mem::swap(&mut at, &mut self.at);
        match (at, event) {
            (At::Open(p), Event::Opened(ok)) => {
                if ok {
                    self.dirs.push(p);
                    self.at = At::Next;
                    assert(self@.dirs =~= before.dirs.push(p@));
                } else {
                    self.resume();
                }
            },
            (At::Next, Event::Entry(entry)) => {
                match entry {
                    None => {
                        self.at = At::Leave;
                    },
                    Some(name) => {
                        let n: usize = self.dirs.len();
                        if file::is_dots(name.as_slice()) || n == 0 {
                            self.at = At::Next;
                        } else {
                            self.at = At::Inspect(self.dirs[n - 1].as_path().join(name.as_slice()));
                        }
                    },
                }
            },
            (At::Inspect(p), Event::Inspected(found)) => {
                let kind = match found {
                    Some(m) => m.name_kind(),
                    None => NameKind::Other,
                };
                self.at = match kind {
                    NameKind::Directory => At::Open(p),
                    NameKind::Link => At::Unlink(p),
                    NameKind::Other => if self.dirs.len() == 0 {
                        At::Open(p)
                    } else {
                        At::Unlink(p)
                    },
                };
            },
            (At::Unlink(_), Event::Unlinked) => {
                self.resume();
            },
            (At::Leave, Event::Left) => {
                match self.dirs.pop() {
                    Some(_) => {
                        assert(self@.dirs =~= before.dirs.drop_last());
                    },
                    None => {},
                }
                self.resume();
            },
            (at, _) => {
                self.at = at;
            },
        }
    }
}

// ---------------------------------------------------------------------------------------------
// What is removed.
// ---------------------------------------------------------------------------------------------

/// What a name in the filesystem holds.
pub enum Tree {
    /// A file, or nothing that can be asked about.
    Other,
    /// A symbolic link, whatever it points at.
    Link,
    /// A directory that cannot be opened.
    Locked,
    /// A directory and what its entries hold, in the order they are listed.
    Dir(Seq<(Seq<u8>, Tree)>),
}

/// What is removed of a tree, in order: what is inside a directory before the directory.
pub open spec fn removals(p: Seq<u8>, tree: Tree) -> Seq<Removed>
    decreases tree,
{
    match tree {
        Tree::Other | Tree::Link => seq![Removed::Name(p)],
        Tree::Locked => seq![],
        Tree::Dir(entries) => removals_inside(p, entries).push(Removed::Dir(p)),
    }
}

/// What is removed inside a directory.
pub open spec fn removals_inside(dir: Seq<u8>, entries: Seq<(Seq<u8>, Tree)>) -> Seq<Removed>
    decreases entries,
{
    if entries.len() == 0 {
        seq![]
    } else {
        let (name, tree) = entries[0];
        let first = if file::dots(name) {
            seq![]
        } else {
            removals(path::join_of(dir, name), tree)
        };
        first + removals_inside(dir, entries.drop_first())
    }
}

/// The answers a filesystem gives about a name that holds a tree, from `lstat` on.
pub open spec fn answers(tree: Tree) -> Seq<Answer>
    decreases tree,
{
    match tree {
        Tree::Other => seq![Answer::Inspected(NameKind::Other), Answer::Unlinked],
        Tree::Link => seq![Answer::Inspected(NameKind::Link), Answer::Unlinked],
        Tree::Locked => seq![Answer::Inspected(NameKind::Directory), Answer::Opened(false)],
        Tree::Dir(entries) => seq![Answer::Inspected(NameKind::Directory), Answer::Opened(true)]
            + answers_inside(entries) + seq![Answer::Entry(None), Answer::Left],
    }
}

/// The answers a filesystem gives about the entries of an open directory.
pub open spec fn answers_inside(entries: Seq<(Seq<u8>, Tree)>) -> Seq<Answer>
    decreases entries,
{
    if entries.len() == 0 {
        seq![]
    } else {
        let (name, tree) = entries[0];
        let first = if file::dots(name) {
            seq![]
        } else {
            answers(tree)
        };
        seq![Answer::Entry(Some(name))] + first + answers_inside(entries.drop_first())
    }
}

/// The answers a filesystem gives about a directory that can be opened, from `opendir` on.
pub open spec fn visit(entries: Seq<(Seq<u8>, Tree)>) -> Seq<Answer> {
    seq![Answer::Opened(true)] + answers_inside(entries) + seq![Answer::Entry(None), Answer::Left]
}

/// A removal that has not begun.
pub open spec fn fresh(p: Seq<u8>) -> Removal {
    Removal { dirs: seq![], at: Stage::Inspect(p) }
}

/// A removal that is over.
pub open spec fn over() -> Removal {
    Removal { dirs: seq![], at: Stage::Done }
}

/// Where a removal stands after some answers.
pub open spec fn run(s: Removal, feed: Seq<Answer>) -> Removal
    decreases feed.len(),
{
    if feed.len() == 0 {
        s
    } else {
        run(s.step(feed[0]), feed.drop_first())
    }
}

/// What has been removed after some answers.
pub open spec fn trace(s: Removal, feed: Seq<Answer>) -> Seq<Removed>
    decreases feed.len(),
{
    if feed.len() == 0 {
        seq![]
    } else {
        s.removed(feed[0]) + trace(s.step(feed[0]), feed.drop_first())
    }
}

/// Answers may be taken in two goes.
proof fn lemma_run_concat(s: Removal, a: Seq<Answer>, b: Seq<Answer>)
    ensures
        run(s, a + b) == run(run(s, a), b),
        trace(s, a + b) == trace(s, a) + trace(run(s, a), b),
    decreases a.len(),
{
    if a.len() == 0 {
        assert(a + b =~= b);
        assert(trace(s, a) + trace(run(s, a), b) =~= trace(s, b));
    } else {
        assert((a + b).drop_first() =~= a.drop_first() + b);
        assert((a + b)[0] == a[0]);
        lemma_run_concat(s.step(a[0]), a.drop_first(), b);
        assert(s.removed(a[0]) + (trace(s.step(a[0]), a.drop_first()) + trace(run(s, a), b)) =~= (
        s.removed(a[0]) + trace(s.step(a[0]), a.drop_first())) + trace(run(s, a), b));
    }
}

/// One answer.
proof fn lemma_run_one(s: Removal, a: Answer)
    ensures
        run(s, seq![a]) == s.step(a),
        trace(s, seq![a]) == s.removed(a),
{
    reveal_with_fuel(run, 2);
    reveal_with_fuel(trace, 2);
    assert(seq![a].drop_first() =~= seq![]);
    assert(s.removed(a) + seq![] =~= s.removed(a));
}

/// From the `lstat` of a name that is to be unlinked, exactly the name is removed.
proof fn lemma_unlinked(s: Removal, p: Seq<u8>, kind: NameKind)
    requires
        s.at == Stage::Inspect(p),
        kind == NameKind::Link || (kind == NameKind::Other && s.dirs.len() > 0),
    ensures
        run(s, seq![Answer::Inspected(kind), Answer::Unlinked]) == s.resume(),
        trace(s, seq![Answer::Inspected(kind), Answer::Unlinked]) == seq![Removed::Name(p)],
{
    let seen = Answer::Inspected(kind);
    lemma_run_one(s, seen);
    lemma_run_one(s.step(seen), Answer::Unlinked);
    lemma_run_concat(s, seq![seen], seq![Answer::Unlinked]);
    assert(seq![seen, Answer::Unlinked] =~= seq![seen] + seq![Answer::Unlinked]);
    assert(trace(s, seq![seen, Answer::Unlinked]) =~= seq![Removed::Name(p)]);
}

/// From the `lstat` of a name, the removal takes exactly what the name holds and is back in the
/// directory it came from.
proof fn lemma_name(s: Removal, p: Seq<u8>, tree: Tree)
    requires
        s.dirs.len() > 0,
        s.at == Stage::Inspect(p),
    ensures
        run(s, answers(tree)) == (Removal { dirs: s.dirs, at: Stage::Next }),
        trace(s, answers(tree)) == removals(p, tree),
    decreases tree,
{
    match tree {
        Tree::Other => lemma_unlinked(s, p, NameKind::Other),
        Tree::Link => lemma_unlinked(s, p, NameKind::Link),
        Tree::Locked => {
            let s1 = s.step(Answer::Inspected(NameKind::Directory));
            lemma_run_one(s, Answer::Inspected(NameKind::Directory));
            lemma_run_one(s1, Answer::Opened(false));
            lemma_run_concat(s, seq![Answer::Inspected(NameKind::Directory)], seq![Answer::Opened(false)]);
            assert(answers(tree) =~= seq![Answer::Inspected(NameKind::Directory)] + seq![Answer::Opened(false)]);
            assert(trace(s, answers(tree)) =~= removals(p, tree));
        },
        Tree::Dir(entries) => {
            let s1 = s.step(Answer::Inspected(NameKind::Directory));
            lemma_run_one(s, Answer::Inspected(NameKind::Directory));
            lemma_directory(s1, p, entries);
            let rest = visit(entries);
            lemma_run_concat(s, seq![Answer::Inspected(NameKind::Directory)], rest);
            assert(answers(tree) =~= seq![Answer::Inspected(NameKind::Directory)] + rest);
            assert(trace(s, answers(tree)) =~= removals(p, tree));
        },
    }
}

/// From the opening of a directory, the removal takes exactly what is inside and the directory.
proof fn lemma_directory(s: Removal, p: Seq<u8>, entries: Seq<(Seq<u8>, Tree)>)
    requires
        s.at == Stage::Open(p),
    ensures
        run(s, visit(entries)) == s.resume(),
        trace(s, visit(entries)) == removals_inside(p, entries).push(Removed::Dir(p)),
    decreases entries, 1int,
{
    let open = Answer::Opened(true);
    let inside = answers_inside(entries);
    let end = Answer::Entry(None);
    let s1 = s.step(open);
    lemma_run_one(s, open);
    lemma_inside(s1, entries);
    assert(s1.dirs.last() == p);
    let s2 = s1.step(end);
    lemma_run_one(s1, end);
    lemma_run_one(s2, Answer::Left);
    assert(s1.dirs.drop_last() =~= s.dirs);
    assert(s2.step(Answer::Left) =~= s.resume());
    lemma_run_concat(s1, seq![end], seq![Answer::Left]);
    lemma_run_concat(s, seq![open], inside);
    lemma_run_concat(s, seq![open] + inside, seq![end] + seq![Answer::Left]);
    assert(seq![open] + inside + seq![end, Answer::Left] =~= (seq![open] + inside) + (seq![end]
        + seq![Answer::Left]));
    assert(trace(s, seq![open] + inside + seq![end, Answer::Left]) =~= removals_inside(
        p,
        entries,
    ).push(Removed::Dir(p)));
}

/// In an open directory, the removal takes exactly what the entries hold.
proof fn lemma_inside(s: Removal, entries: Seq<(Seq<u8>, Tree)>)
    requires
        s.dirs.len() > 0,
        s.at is Next,
    ensures
        run(s, answers_inside(entries)) == s,
        trace(s, answers_inside(entries)) == removals_inside(s.dirs.last(), entries),
    decreases entries, 0int,
{
    if entries.len() > 0 {
        let (name, tree) = entries[0];
        let one = Answer::Entry(Some(name));
        let tail = entries.drop_first();
        let s1 = s.step(one);
        lemma_run_one(s, one);
        lemma_inside(s, tail);
        if file::dots(name) {
            lemma_run_concat(s, seq![one], answers_inside(tail));
            assert(answers_inside(entries) =~= seq![one] + answers_inside(tail));
            assert(trace(s, answers_inside(entries)) =~= removals_inside(s.dirs.last(), entries));
        } else {
            let child = path::join_of(s.dirs.last(), name);
            lemma_name(s1, child, tree);
            assert(run(s1, answers(tree)) == s);
            lemma_run_concat(s, seq![one], answers(tree));
            lemma_run_concat(s, seq![one] + answers(tree), answers_inside(tail));
            assert(trace(s, answers_inside(entries)) =~= removals_inside(s.dirs.last(), entries));
        }
    }
}

/// The removal of a directory takes exactly what is in it, inner names before the directories that
/// hold them and the directory itself last, and is then over.
pub proof fn removes_exactly_the_tree(p: Seq<u8>, entries: Seq<(Seq<u8>, Tree)>)
    ensures
        run(fresh(p), answers(Tree::Dir(entries))) == over(),
        trace(fresh(p), answers(Tree::Dir(entries))) == removals(p, Tree::Dir(entries)),
{
    let seen = Answer::Inspected(NameKind::Directory);
    lemma_run_one(fresh(p), seen);
    lemma_directory(fresh(p).step(seen), p, entries);
    lemma_run_concat(fresh(p), seq![seen], visit(entries));
    assert(answers(Tree::Dir(entries)) =~= seq![seen] + visit(entries));
    assert(trace(fresh(p), answers(Tree::Dir(entries))) =~= removals(p, Tree::Dir(entries)));
}

/// Where the name to remove is itself a link, the link is unlinked, and that is all: what it points
/// at is not touched.
pub proof fn a_named_link_is_unlinked(p: Seq<u8>)
    ensures
        run(fresh(p), answers(Tree::Link)) == over(),
        trace(fresh(p), answers(Tree::Link)) == seq![Removed::Name(p)],
{
    lemma_unlinked(fresh(p), p, NameKind::Link);
}

/// Nothing is removed of a directory that cannot be opened, not even the directory.
pub proof fn a_locked_directory_stays(p: Seq<u8>)
    ensures
        run(fresh(p), answers(Tree::Locked)) == over(),
        trace(fresh(p), answers(Tree::Locked)).len() == 0,
{
    let seen = Answer::Inspected(NameKind::Directory);
    let refused = Answer::Opened(false);
    lemma_run_one(fresh(p), seen);
    lemma_run_one(fresh(p).step(seen), refused);
    lemma_run_concat(fresh(p), seq![seen], seq![refused]);
    assert(answers(Tree::Locked) =~= seq![seen] + seq![refused]);
}

/// A name that is not a directory is not a tree to remove: opening it fails, and it stays.
pub proof fn a_named_file_stays(p: Seq<u8>)
    ensures
        run(fresh(p), seq![Answer::Inspected(NameKind::Other), Answer::Opened(false)]) == over(),
        trace(fresh(p), seq![Answer::Inspected(NameKind::Other), Answer::Opened(false)]).len() == 0,
{
    let seen = Answer::Inspected(NameKind::Other);
    let refused = Answer::Opened(false);
    lemma_run_one(fresh(p), seen);
    lemma_run_one(fresh(p).step(seen), refused);
    lemma_run_concat(fresh(p), seq![seen], seq![refused]);
    assert(seq![seen, refused] =~= seq![seen] + seq![refused]);
}

/// A name is opened only when `lstat` has just said that the name itself is no link, and inside the
/// tree only when it has said that it is a directory. A name is unlinked only when `lstat` has just
/// said that it is not a directory.
pub proof fn links_are_not_followed(s: Removal, answer: Answer, p: Seq<u8>)
    requires
        s.step(answer) != s,
    ensures
        s.step(answer).at == Stage::Open(p) ==> s.at == Stage::Inspect(p) && (answer
            == Answer::Inspected(NameKind::Directory) || (answer == Answer::Inspected(
            NameKind::Other,
        ) && s.dirs.len() == 0)),
        s.step(answer).at == Stage::Unlink(p) ==> s.at == Stage::Inspect(p) && (answer
            == Answer::Inspected(NameKind::Link) || answer == Answer::Inspected(NameKind::Other)),
        !(fresh(p).at is Open),
{
}

/// Whether an answer could have come from a directory.
pub open spec fn plausible(answer: Answer) -> bool {
    answer matches Answer::Entry(Some(name)) ==> path::clean(name)
}

/// Whether everything a removal is about to touch is the root of the tree or inside it.
pub open spec fn confined(s: Removal, root: Seq<u8>) -> bool {
    &&& forall|k: int|
        0 <= k < s.dirs.len() ==> path::starts_with_of(#[trigger] s.dirs[k], root)
    &&& match s.at {
        Stage::Open(p) => path::starts_with_of(p, root),
        Stage::Inspect(p) => path::starts_with_of(p, root),
        Stage::Unlink(p) => path::starts_with_of(p, root),
        _ => true,
    }
}

/// Removing never leaves the tree it was given, whatever the answers: it starts inside, and each
/// step stays inside.
pub proof fn removal_is_confined(s: Removal, answer: Answer, root: Seq<u8>)
    requires
        plausible(answer),
    ensures
        confined(fresh(root), root),
        confined(s, root) ==> confined(s.step(answer), root),
{
    let whole = path::components_of(root);
    assert(whole.subrange(0, whole.len() as int) =~= whole);
    if confined(s, root) {
        match (s.at, answer) {
            (Stage::Next, Answer::Entry(Some(name))) => {
                if s.dirs.len() > 0 {
                    let dir = s.dirs[s.dirs.len() - 1];
                    assert(path::starts_with_of(dir, root));
                    laws::a_child_is_inside(dir, name);
                    laws::starts_with_is_transitive(root, dir, path::join_of(dir, name));
                }
            },
            _ => {},
        }
    }
}


/// What each answer leads to. A directory that was opened is the innermost one, and one that could
/// not be is passed over; every name in it but `.` and `..` is asked about; a directory is opened,
/// a link is unlinked, and anything else is unlinked unless it is the name the removal began with;
/// and once a directory has no more entries it is left and removed.
pub proof fn what_each_answer_leads_to(dirs: Seq<Seq<u8>>, p: Seq<u8>, name: Seq<u8>)
    ensures
        ({
            let on = if dirs.len() > 0 {
                Removal { dirs, at: Stage::Next }
            } else {
                Removal { dirs, at: Stage::Done }
            };
            let asked = Removal { dirs, at: Stage::Inspect(p) };
            &&& (Removal { dirs, at: Stage::Open(p) }).step(Answer::Opened(true)) == (Removal {
                dirs: dirs.push(p),
                at: Stage::Next,
            })
            &&& (Removal { dirs, at: Stage::Open(p) }).step(Answer::Opened(false)) == on
            &&& (Removal { dirs, at: Stage::Next }).step(Answer::Entry(None)) == (Removal {
                dirs,
                at: Stage::Leave,
            })
            &&& asked.step(Answer::Inspected(NameKind::Directory)) == (Removal {
                dirs,
                at: Stage::Open(p),
            })
            &&& asked.step(Answer::Inspected(NameKind::Link)) == (Removal {
                dirs,
                at: Stage::Unlink(p),
            })
            &&& asked.step(Answer::Inspected(NameKind::Other)) == (if dirs.len() == 0 {
                Removal { dirs, at: Stage::Open(p) }
            } else {
                Removal { dirs, at: Stage::Unlink(p) }
            })
            &&& (Removal { dirs, at: Stage::Unlink(p) }).step(Answer::Unlinked) == on
            &&& dirs.len() > 0 ==> (Removal { dirs, at: Stage::Leave }).step(Answer::Left)
                == (Removal {
                dirs: dirs.drop_last(),
                at: if dirs.len() > 1 {
                    Stage::Next
                } else {
                    Stage::Done
                },
            })
            &&& dirs.len() > 0 ==> (Removal { dirs, at: Stage::Next }).step(
                Answer::Entry(Some(name)),
            ) == (if name == seq![path::DOT] || name == seq![path::DOT, path::DOT] {
                Removal { dirs, at: Stage::Next }
            } else {
                Removal { dirs, at: Stage::Inspect(path::join_of(dirs.last(), name)) }
            })
            &&& fresh(p) == (Removal { dirs: seq![], at: Stage::Inspect(p) })
        }),
{
    file::only_the_dot_names_are_left_out(name);
}

/// Of a tree is removed: a file or a link by its name, nothing of a directory that cannot be
/// opened, and of any other directory what its entries hold, one after the other and without `.`
/// and `..`, and then the directory.
pub proof fn what_a_tree_is_removed_as(
    p: Seq<u8>,
    entries: Seq<(Seq<u8>, Tree)>,
    name: Seq<u8>,
    tree: Tree,
)
    ensures
        removals(p, Tree::Other) == seq![Removed::Name(p)],
        removals(p, Tree::Link) == seq![Removed::Name(p)],
        removals(p, Tree::Locked) == Seq::<Removed>::empty(),
        removals(p, Tree::Dir(Seq::empty())) == seq![Removed::Dir(p)],
        removals(p, Tree::Dir(seq![(name, tree)] + entries)) == (if name == seq![path::DOT] || name
            == seq![path::DOT, path::DOT] {
            Seq::<Removed>::empty()
        } else {
            removals(path::join_of(p, name), tree)
        }) + removals(p, Tree::Dir(entries)),
{
    file::only_the_dot_names_are_left_out(name);
    let all = seq![(name, tree)] + entries;
    assert(all.drop_first() =~= entries);
    assert(removals(p, Tree::Dir(Seq::empty())) =~= seq![Removed::Dir(p)]);
    let first = if name == seq![path::DOT] || name == seq![path::DOT, path::DOT] {
        Seq::<Removed>::empty()
    } else {
        removals(path::join_of(p, name), tree)
    };
    assert(removals_inside(p, all) == first + removals_inside(p, entries));
    assert(removals(p, Tree::Dir(all)) =~= first + removals(p, Tree::Dir(entries)));
}

/// What an event says: a name about which nothing could be found out is taken for one that is
/// neither a directory nor a link.
pub proof fn what_an_event_says(ok: bool, name: Vec<u8>, m: Metadata)
    ensures
        Event::Opened(ok)@ == Answer::Opened(ok),
        Event::Entry(Some(name))@ == Answer::Entry(Some(name@)),
        Event::Entry(None)@ == Answer::Entry(None),
        Event::Inspected(Some(m))@ == Answer::Inspected(m.kind()),
        Event::Inspected(None)@ == Answer::Inspected(NameKind::Other),
        Event::Unlinked@ == Answer::Unlinked,
        Event::Left@ == Answer::Left,
{
}


/// An answer to something that was not asked changes nothing and removes nothing, and once a removal
/// is over no answer changes anything.
pub proof fn an_answer_nobody_asked_for(s: Removal, answer: Answer)
    requires
        match s.at {
            Stage::Open(_) => !(answer is Opened),
            Stage::Next => !(answer is Entry),
            Stage::Inspect(_) => !(answer is Inspected),
            Stage::Unlink(_) => !(answer is Unlinked),
            Stage::Leave => !(answer is Left),
            Stage::Done => true,
        },
    ensures
        s.step(answer) == s,
        s.removed(answer).len() == 0,
{
}

} // verus!
