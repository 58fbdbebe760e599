//! Removing a directory and everything under it, and saying what went wrong.

use vstd::prelude::*;

use crate::file;
use crate::file::remove::{Removed, Tree};
use crate::file::remove;
use crate::file::{Error, ErrorView, Metadata, NameKind};
use crate::fs::rmdir;
use crate::path;
use crate::path::laws;
use crate::path::{Path, PathBuf};
use crate::Errno;

verus! {

/// What removing a tree asks for next.
pub enum Todo {
    /// List the directory of this name.
    List(PathBuf),
    /// Ask what this name itself is.
    Inspect(PathBuf),
    /// Unlink this name.
    Unlink(PathBuf),
    /// Remove the empty directory of this name.
    Rmdir(PathBuf),
    /// Nothing: it is over.
    Done,
    /// Nothing: it failed.
    Failed(Error),
}

/// What came of it.
pub enum Event {
    /// The paths in the directory, or why it could not be listed.
    Listed(Result<Vec<PathBuf>, Error>),
    /// What `lstat` found, or why it found nothing.
    Inspected(Result<Metadata, Error>),
    /// What `unlink` returned, and the `errno` it left.
    Unlinked(i32, Errno),
    /// What `rmdir` returned, and the `errno` it left.
    Rmdir(i32, Errno),
}

/// What came of it, as far as it makes a difference.
pub enum Answer {
    Listed(Result<Seq<Seq<u8>>, ErrorView>),
    /// What the name is.
    Inspected(Result<NameKind, ErrorView>),
    Unlinked(Result<(), Errno>),
    Rmdir(Result<(), Errno>),
}

impl View for Event {
    type V = Answer;

    open spec fn view(&self) -> Answer {
        match *self {
            Event::Listed(Ok(v)) => Answer::Listed(Ok(file::path_views(v@))),
            Event::Listed(Err(e)) => Answer::Listed(Err(e@)),
            Event::Inspected(Ok(m)) => Answer::Inspected(Ok(m.kind())),
            Event::Inspected(Err(e)) => Answer::Inspected(Err(e@)),
            Event::Unlinked(returned, errno) => Answer::Unlinked(
                if returned == -1 {
                    Err(errno)
                } else {
                    Ok(())
                },
            ),
            Event::Rmdir(returned, errno) => Answer::Rmdir(
                if returned == -1 {
                    Err(errno)
                } else {
                    Ok(())
                },
            ),
        }
    }
}

/// Where the removal of a tree stands.
pub enum Stage {
    List(Seq<u8>),
    Inspect(Seq<u8>),
    Unlink(Seq<u8>),
    Rmdir(Seq<u8>),
    Done,
    Failed(ErrorView),
}

/// A directory being emptied, and which of its children are still to come.
#[verifier::ext_equal]
pub struct Level {
    pub dir: Seq<u8>,
    pub left: Seq<Seq<u8>>,
}

/// A removal under way: the directories being emptied, outermost first, and what comes next.
#[verifier::ext_equal]
pub struct Removal {
    pub levels: Seq<Level>,
    pub at: Stage,
}

/// What comes next with these directories being emptied: the next child of the innermost one, or
/// the directory itself once it has no more.
pub open spec fn advance(levels: Seq<Level>) -> Removal {
    if levels.len() == 0 {
        Removal { levels, at: Stage::Done }
    } else {
        let top = levels.last();
        if top.left.len() == 0 {
            Removal { levels, at: Stage::Rmdir(top.dir) }
        } else {
            Removal {
                levels: levels.drop_last().push(
                    Level { dir: top.dir, left: top.left.drop_first() },
                ),
                at: Stage::Inspect(top.left[0]),
            }
        }
    }
}

impl Removal {
    /// What is next once an answer has come.
    ///
    /// A directory that cannot be listed, a name inside the tree that cannot be asked about and a
    /// directory that cannot be removed each end it. A name inside the tree that cannot be unlinked
    /// does not: its directory then cannot be removed.
    ///
    /// The name the removal began with is unlinked if it is a link, and listing anything else that
    /// is not a directory says why that cannot be done.
    pub open spec fn step(self, answer: Answer) -> Removal {
        match (self.at, answer) {
            (Stage::List(p), Answer::Listed(listing)) => match listing {
                Ok(children) => advance(self.levels.push(Level { dir: p, left: children })),
                Err(e) => Removal { at: Stage::Failed(e), ..self },
            },
            (Stage::Inspect(p), Answer::Inspected(found)) => match found {
                Ok(NameKind::Directory) => Removal { at: Stage::List(p), ..self },
                Ok(NameKind::Link) => Removal { at: Stage::Unlink(p), ..self },
                Ok(NameKind::Other) => Removal {
                    at: if self.levels.len() == 0 {
                        Stage::List(p)
                    } else {
                        Stage::Unlink(p)
                    },
                    ..self
                },
                Err(e) => Removal {
                    at: if self.levels.len() == 0 {
                        Stage::List(p)
                    } else {
                        Stage::Failed(e)
                    },
                    ..self
                },
            },
            (Stage::Unlink(_), Answer::Unlinked(result)) => match result {
                Err(errno) => if self.levels.len() == 0 {
                    Removal { at: Stage::Failed(file::failure(errno, "unlink"@)), ..self }
                } else {
                    advance(self.levels)
                },
                Ok(_) => advance(self.levels),
            },
            (Stage::Rmdir(_), Answer::Rmdir(result)) => match result {
                Ok(_) => if self.levels.len() > 0 {
                    advance(self.levels.drop_last())
                } else {
                    advance(self.levels)
                },
                Err(errno) => Removal { at: Stage::Failed(file::failure(errno, "rmdir"@)), ..self },
            },
            _ => self,
        }
    }

    /// What has been removed once an answer has come.
    pub open spec fn removed(self, answer: Answer) -> Seq<Removed> {
        match (self.at, answer) {
            (Stage::Unlink(p), Answer::Unlinked(Ok(_))) => seq![Removed::Name(p)],
            (Stage::Rmdir(p), Answer::Rmdir(Ok(_))) => seq![Removed::Dir(p)],
            _ => seq![],
        }
    }

    /// Whether `todo` is what comes next.
    pub open spec fn asks(self, todo: Todo) -> bool {
        match self.at {
            Stage::List(p) => todo matches Todo::List(q) && q@ == p,
            Stage::Inspect(p) => todo matches Todo::Inspect(q) && q@ == p,
            Stage::Unlink(p) => todo matches Todo::Unlink(q) && q@ == p,
            Stage::Rmdir(p) => todo matches Todo::Rmdir(q) && q@ == p,
            Stage::Done => todo is Done,
            Stage::Failed(e) => todo matches Todo::Failed(f) && f@ == e,
        }
    }
}

/// A directory being emptied.
struct Emptying {
    dir: PathBuf,
    children: Vec<PathBuf>,
    next: usize,
}

impl Emptying {
    spec fn level(&self) -> Level {
        Level { dir: self.dir@, left: file::path_views(self.children@).skip(self.next as int) }
    }

    #[verifier::type_invariant]
    spec fn well_formed(self) -> bool {
        self.next <= self.children@.len()
    }
}

/// Where the removal of a tree stands.
enum At {
    List(PathBuf),
    Inspect(PathBuf),
    Unlink(PathBuf),
    Rmdir(PathBuf),
    Done,
    Failed(Error),
}

impl At {
    spec fn stage(self) -> Stage {
        match self {
            At::List(p) => Stage::List(p@),
            At::Inspect(p) => Stage::Inspect(p@),
            At::Unlink(p) => Stage::Unlink(p@),
            At::Rmdir(p) => Stage::Rmdir(p@),
            At::Done => Stage::Done,
            At::Failed(e) => Stage::Failed(e@),
        }
    }
}

/// The removal of a directory and everything under it.
pub struct RemoveDirAll {
    open: Vec<Emptying>,
    at: At,
}

/// The directories being emptied.
spec fn levels_of(open: Seq<Emptying>) -> Seq<Level> {
    Seq::new(open.len(), |i: int| open[i].level())
}

impl View for RemoveDirAll {
    type V = Removal;

    closed spec fn view(&self) -> Removal {
        Removal { levels: levels_of(self.open@), at: self.at.stage() }
    }
}

/// A removal that has not begun.
pub open spec fn fresh(p: Seq<u8>) -> Removal {
    Removal { levels: seq![], at: Stage::Inspect(p) }
}

/// A removal that is over.
pub open spec fn over() -> Removal {
    Removal { levels: seq![], at: Stage::Done }
}

/// Start removing a directory and everything under it.
///
/// Does not follow symlinks, which is the whole hazard in a recursive delete: a link pointing out
/// of the tree would take the deletion with it. A link is a name, `unlink` removes the name, and
/// only a real directory is descended into.
pub fn remove_dir_all(p: Path<'_>) -> (r: RemoveDirAll)
    ensures
        r@ == fresh(p@),
{
    let r = RemoveDirAll { open: Vec::new(), at: At::Inspect(p.to_path_buf()) };
    assert(r@ =~= fresh(p@));
    r
}

impl RemoveDirAll {
    /// What to do next.
    pub fn todo(&self) -> (r: Todo)
        ensures
            self@.asks(r),
            match self@.at {
                Stage::List(p) => r matches Todo::List(q) && q@ == p,
                Stage::Inspect(p) => r matches Todo::Inspect(q) && q@ == p,
                Stage::Unlink(p) => r matches Todo::Unlink(q) && q@ == p,
                Stage::Rmdir(p) => r matches Todo::Rmdir(q) && q@ == p,
                Stage::Done => r is Done,
                Stage::Failed(e) => r matches Todo::Failed(f) && f@ == e,
            },
    {
        match &self.at {
            At::List(p) => Todo::List(p.as_path().to_path_buf()),
            At::Inspect(p) => Todo::Inspect(p.as_path().to_path_buf()),
            At::Unlink(p) => Todo::Unlink(p.as_path().to_path_buf()),
            At::Rmdir(p) => Todo::Rmdir(p.as_path().to_path_buf()),
            At::Done => Todo::Done,
            At::Failed(e) => Todo::Failed(e.clone()),
        }
    }

    /// On to the next child of the innermost directory, or to the directory itself.
    fn advance(&mut self)
        ensures
            final(self)@ == advance(old(self)@.levels),
    {
        let ghost levels = self@.levels;
        match self.open.pop() {
            None => {
                self.at = At::Done;
                assert(self@ =~= advance(levels));
            },
            Some(top) => {
                proof {
                    use_type_invariant(&top);
                    assert(levels_of(self.open@) =~= levels.drop_last());
                }
                let Emptying { dir, children, next } = top;
                if next < children.len() {
                    let child = children[next].as_path().to_path_buf();
                    let ghost left = file::path_views(children@).skip(next as int);
                    assert(left.drop_first() =~= file::path_views(children@).skip(next + 1));
                    self.open.push(Emptying { dir, children, next: next + 1 });
                    self.at = At::Inspect(child);
                    assert(self@ =~= advance(levels));
                } else {
                    self.at = At::Rmdir(dir.as_path().to_path_buf());
                    self.open.push(Emptying { dir, children, next });
                    assert(self@ =~= advance(levels));
                }
            },
        }
    }

    /// Take what came of it. An answer to something that was not asked changes nothing.
    pub fn step(&mut self, event: Event)
        ensures
            final(self)@ == old(self)@.step(event@),
    {
        let ghost before = self@;
        let mut at = At::Done;
        std::mem::swap(&mut at, &mut self.at);
        match (at, event) {
            (At::List(p), Event::Listed(listing)) => {
                match listing {
                    Ok(children) => {
                        assert(file::path_views(children@).skip(0) =~= file::path_views(children@));
                        self.open.push(Emptying { dir: p, children, next: 0 });
                        assert(self@.levels =~= before.levels.push(
                            Level { dir: p@, left: file::path_views(children@) },
                        ));
                        self.advance();
                    },
                    Err(e) => {
                        self.at = At::Failed(e);
                    },
                }
            },
            (At::Inspect(p), Event::Inspected(found)) => {
                let named = self.open.len() == 0;
                self.at = match found {
                    Ok(m) => match m.name_kind() {
                        NameKind::Directory => At::List(p),
                        NameKind::Link => At::Unlink(p),
                        NameKind::Other => if named {
                            At::List(p)
                        } else {
                            At::Unlink(p)
                        },
                    },
                    Err(e) => if named {
                        At::List(p)
                    } else {
                        At::Failed(e)
                    },
                };
            },
            (At::Unlink(_), Event::Unlinked(returned, errno)) => {
                if returned == -1 && self.open.len() == 0 {
                    self.at = At::Failed(Error::from_errno(errno, "unlink"));
                } else {
                    self.advance();
                }
            },
            (At::Rmdir(_), Event::Rmdir(returned, errno)) => {
                match rmdir(returned, errno) {
                    Ok(_) => {
                        match self.open.pop() {
                            Some(_) => {
                                assert(self@.levels =~= before.levels.drop_last());
                            },
                            None => {},
                        }
                        self.advance();
                    },
                    Err(e) => {
                        self.at = At::Failed(Error::from_errno(e, "rmdir"));
                    },
                }
            },
            (at, _) => {
                self.at = at;
            },
        }
    }
}

// ---------------------------------------------------------------------------------------------
// What is removed.
// ---------------------------------------------------------------------------------------------

/// The names of a directory's entries.
pub open spec fn names_of(entries: Seq<(Seq<u8>, Tree)>) -> Seq<Seq<u8>> {
    Seq::new(entries.len(), |i: int| entries[i].0)
}

/// Whether every directory of a tree can be listed.
pub open spec fn readable(tree: Tree) -> bool
    decreases tree,
{
    match tree {
        Tree::Other | Tree::Link => true,
        Tree::Locked => false,
        Tree::Dir(entries) => readable_inside(entries),
    }
}

/// Whether every directory inside a directory can be listed.
pub open spec fn readable_inside(entries: Seq<(Seq<u8>, Tree)>) -> bool
    decreases entries,
{
    entries.len() == 0 || (readable(entries[0].1) && readable_inside(entries.drop_first()))
}

/// The answers a filesystem gives about a name that holds a readable tree, when everything that is
/// asked succeeds.
pub open spec fn answers(p: Seq<u8>, tree: Tree) -> Seq<Answer>
    decreases tree,
{
    match tree {
        Tree::Dir(entries) => seq![
            Answer::Inspected(Ok(NameKind::Directory)),
            Answer::Listed(Ok(file::listed(p, names_of(entries)))),
        ] + answers_inside(p, entries) + seq![Answer::Rmdir(Ok(()))],
        Tree::Link => seq![Answer::Inspected(Ok(NameKind::Link)), Answer::Unlinked(Ok(()))],
        _ => seq![Answer::Inspected(Ok(NameKind::Other)), Answer::Unlinked(Ok(()))],
    }
}

/// The answers a filesystem gives about what is inside a directory.
pub open spec fn answers_inside(dir: Seq<u8>, entries: Seq<(Seq<u8>, Tree)>) -> Seq<Answer>
    decreases entries,
{
    if entries.len() == 0 {
        seq![]
    } else {
        let (name, tree) = entries[0];
        let first = if file::dots(name) {
            seq![]
        } else {
            answers(path::join_of(dir, name), tree)
        };
        first + answers_inside(dir, entries.drop_first())
    }
}

/// The answers a filesystem gives about a directory, from its listing on.
pub open spec fn visit(p: Seq<u8>, entries: Seq<(Seq<u8>, Tree)>) -> Seq<Answer> {
    seq![Answer::Listed(Ok(file::listed(p, names_of(entries))))] + answers_inside(p, entries)
        + seq![Answer::Rmdir(Ok(()))]
}

/// Where a removal stands after some answers.
pub open spec fn run(s: Removal, feed: Seq<Answer>) -> Removal
    decreases feed.len(),
{
    if feed.len() == 0 {
        s
    } else {
        run(s.step(feed[0]), feed.drop_first())
    }
}

/// What has been removed after some answers.
pub open spec fn trace(s: Removal, feed: Seq<Answer>) -> Seq<Removed>
    decreases feed.len(),
{
    if feed.len() == 0 {
        seq![]
    } else {
        s.removed(feed[0]) + trace(s.step(feed[0]), feed.drop_first())
    }
}

/// Answers may be taken in two goes.
proof fn lemma_run_concat(s: Removal, a: Seq<Answer>, b: Seq<Answer>)
    ensures
        run(s, a + b) == run(run(s, a), b),
        trace(s, a + b) == trace(s, a) + trace(run(s, a), b),
    decreases a.len(),
{
    if a.len() == 0 {
        assert(a + b =~= b);
        assert(trace(s, a) + trace(run(s, a), b) =~= trace(s, b));
    } else {
        assert((a + b).drop_first() =~= a.drop_first() + b);
        assert((a + b)[0] == a[0]);
        lemma_run_concat(s.step(a[0]), a.drop_first(), b);
        assert(s.removed(a[0]) + (trace(s.step(a[0]), a.drop_first()) + trace(run(s, a), b)) =~= (
        s.removed(a[0]) + trace(s.step(a[0]), a.drop_first())) + trace(run(s, a), b));
    }
}

/// One answer.
proof fn lemma_run_one(s: Removal, a: Answer)
    ensures
        run(s, seq![a]) == s.step(a),
        trace(s, seq![a]) == s.removed(a),
{
    reveal_with_fuel(run, 2);
    reveal_with_fuel(trace, 2);
    assert(seq![a].drop_first() =~= seq![]);
    assert(s.removed(a) + seq![] =~= s.removed(a));
}

/// A listing begins with what its first entry lists.
proof fn lemma_listed_front(dir: Seq<u8>, names: Seq<Seq<u8>>)
    requires
        names.len() > 0,
    ensures
        file::listed(dir, names) == (if file::dots(names[0]) {
            seq![]
        } else {
            seq![path::join_of(dir, names[0])]
        }) + file::listed(dir, names.drop_first()),
    decreases names.len(),
{
    let first = if file::dots(names[0]) {
        seq![]
    } else {
        seq![path::join_of(dir, names[0])]
    };
    if names.len() == 1 {
        assert(names.drop_last() =~= seq![]);
        assert(names.drop_first() =~= seq![]);
        assert(file::listed(dir, names) =~= first + file::listed(dir, names.drop_first()));
    } else {
        lemma_listed_front(dir, names.drop_last());
        assert(names.drop_last().drop_first() =~= names.drop_first().drop_last());
        assert(file::listed(dir, names) =~= first + file::listed(dir, names.drop_first()));
    }
}

/// The directories being emptied, with the children the innermost one still has.
spec fn with_left(levels: Seq<Level>, left: Seq<Seq<u8>>) -> Seq<Level> {
    levels.drop_last().push(Level { dir: levels.last().dir, left })
}

/// From the question what a name is, the removal takes exactly what the name holds and goes on
/// from where it was.
proof fn lemma_name(s: Removal, p: Seq<u8>, tree: Tree)
    requires
        readable(tree),
        s.levels.len() > 0,
        s.at == Stage::Inspect(p),
    ensures
        run(s, answers(p, tree)) == advance(s.levels),
        trace(s, answers(p, tree)) == remove::removals(p, tree),
    decreases tree,
{
    match tree {
        Tree::Dir(entries) => {
            let seen = Answer::Inspected(Ok(NameKind::Directory));
            let s1 = s.step(seen);
            lemma_run_one(s, seen);
            lemma_directory(s1, p, entries);
            lemma_run_concat(s, seq![seen], visit(p, entries));
            assert(answers(p, tree) =~= seq![seen] + visit(p, entries));
            assert(trace(s, answers(p, tree)) =~= remove::removals(p, tree));
        },
        Tree::Link => lemma_unlinked(s, p, NameKind::Link),
        _ => lemma_unlinked(s, p, NameKind::Other),
    }
}

/// From the question what a name is that is to be unlinked, exactly the name is removed.
proof fn lemma_unlinked(s: Removal, p: Seq<u8>, kind: NameKind)
    requires
        s.at == Stage::Inspect(p),
        kind == NameKind::Link || (kind == NameKind::Other && s.levels.len() > 0),
    ensures
        run(s, seq![Answer::Inspected(Ok(kind)), Answer::Unlinked(Ok(()))]) == advance(s.levels),
        trace(s, seq![Answer::Inspected(Ok(kind)), Answer::Unlinked(Ok(()))]) == seq![
            Removed::Name(p),
        ],
{
    let seen = Answer::Inspected(Ok(kind));
    let gone = Answer::Unlinked(Ok(()));
    lemma_run_one(s, seen);
    lemma_run_one(s.step(seen), gone);
    lemma_run_concat(s, seq![seen], seq![gone]);
    assert(seq![seen, gone] =~= seq![seen] + seq![gone]);
    assert(trace(s, seq![seen, gone]) =~= seq![Removed::Name(p)]);
}

/// From the listing of a directory, the removal takes exactly what is inside and the directory.
proof fn lemma_directory(s: Removal, p: Seq<u8>, entries: Seq<(Seq<u8>, Tree)>)
    requires
        readable_inside(entries),
        s.at == Stage::List(p),
    ensures
        run(s, visit(p, entries)) == advance(s.levels),
        trace(s, visit(p, entries)) == remove::removals_inside(p, entries).push(Removed::Dir(p)),
    decreases entries, 1int,
{
    let listing = Answer::Listed(Ok(file::listed(p, names_of(entries))));
    let inside = answers_inside(p, entries);
    let gone = Answer::Rmdir(Ok(()));
    let full = s.levels.push(Level { dir: p, left: file::listed(p, names_of(entries)) });
    let empty = with_left(full, seq![]);
    lemma_run_one(s, listing);
    assert(s.step(listing) == advance(full));
    lemma_inside(full, entries);
    let s2 = advance(empty);
    assert(empty.last().left.len() == 0);
    assert(s2.at == Stage::Rmdir(p));
    lemma_run_one(s2, gone);
    assert(empty.drop_last() =~= s.levels);
    lemma_run_concat(s, seq![listing], inside);
    lemma_run_concat(s, seq![listing] + inside, seq![gone]);
    assert(trace(s, visit(p, entries)) =~= remove::removals_inside(p, entries).push(
        Removed::Dir(p),
    ));
}

/// With the children of the innermost directory still to come, the removal takes exactly what they
/// hold and has none left.
proof fn lemma_inside(levels: Seq<Level>, entries: Seq<(Seq<u8>, Tree)>)
    requires
        readable_inside(entries),
        levels.len() > 0,
        levels.last().left == file::listed(levels.last().dir, names_of(entries)),
    ensures
        run(advance(levels), answers_inside(levels.last().dir, entries)) == advance(
            with_left(levels, seq![]),
        ),
        trace(advance(levels), answers_inside(levels.last().dir, entries))
            == remove::removals_inside(levels.last().dir, entries),
    decreases entries, 0int,
{
    let dir = levels.last().dir;
    let s = advance(levels);
    if entries.len() == 0 {
        assert(levels.last().left =~= seq![]);
        assert(with_left(levels, seq![]) =~= levels);
    } else {
        let (name, tree) = entries[0];
        let tail = entries.drop_first();
        let names = names_of(entries);
        lemma_listed_front(dir, names);
        assert(names.drop_first() =~= names_of(tail));
        let rest = with_left(levels, file::listed(dir, names_of(tail)));
        assert(with_left(rest, seq![]) =~= with_left(levels, seq![]));
        if file::dots(name) {
            assert(levels.last().left =~= file::listed(dir, names_of(tail)));
            assert(rest =~= levels);
            lemma_inside(levels, tail);
            assert(answers_inside(dir, entries) =~= answers_inside(dir, tail));
            assert(remove::removals_inside(dir, entries) =~= remove::removals_inside(dir, tail));
        } else {
            let child = path::join_of(dir, name);
            assert(levels.last().left[0] == child);
            assert(levels.last().left.drop_first() =~= file::listed(dir, names_of(tail)));
            assert(s.levels =~= rest);
            lemma_name(s, child, tree);
            lemma_inside(rest, tail);
            lemma_run_concat(s, answers(child, tree), answers_inside(dir, tail));
        }
    }
}

/// When nothing fails, the removal of a directory takes exactly what is in it, inner names before
/// the directories that hold them and the directory itself last, and is then over.
pub proof fn removes_exactly_the_tree(p: Seq<u8>, entries: Seq<(Seq<u8>, Tree)>)
    requires
        readable(Tree::Dir(entries)),
    ensures
        run(fresh(p), answers(p, Tree::Dir(entries))) == over(),
        trace(fresh(p), answers(p, Tree::Dir(entries))) == remove::removals(p, Tree::Dir(entries)),
{
    let seen = Answer::Inspected(Ok(NameKind::Directory));
    lemma_run_one(fresh(p), seen);
    lemma_directory(fresh(p).step(seen), p, entries);
    lemma_run_concat(fresh(p), seq![seen], visit(p, entries));
    assert(answers(p, Tree::Dir(entries)) =~= seq![seen] + visit(p, entries));
    assert(advance(fresh(p).levels) =~= over());
    assert(trace(fresh(p), answers(p, Tree::Dir(entries))) =~= remove::removals(
        p,
        Tree::Dir(entries),
    ));
}

/// Where the name to remove is itself a link, the link is unlinked, and that is all: what it points
/// at is not touched.
pub proof fn a_named_link_is_unlinked(p: Seq<u8>)
    ensures
        run(fresh(p), answers(p, Tree::Link)) == over(),
        trace(fresh(p), answers(p, Tree::Link)) == seq![Removed::Name(p)],
{
    lemma_unlinked(fresh(p), p, NameKind::Link);
    assert(advance(fresh(p).levels) =~= over());
}

/// A name that is not a directory, or that is not there, fails as listing it does, and nothing is
/// removed.
pub proof fn a_named_file_fails(p: Seq<u8>, seen: Answer, why: ErrorView)
    requires
        seen == Answer::Inspected(Ok(NameKind::Other)) || (seen matches Answer::Inspected(r) && r
            is Err),
    ensures
        run(fresh(p), seq![seen, Answer::Listed(Err(why))]).at == Stage::Failed(why),
        trace(fresh(p), seq![seen, Answer::Listed(Err(why))]).len() == 0,
{
    let refused = Answer::Listed(Err(why));
    lemma_run_one(fresh(p), seen);
    lemma_run_one(fresh(p).step(seen), refused);
    lemma_run_concat(fresh(p), seq![seen], seq![refused]);
    assert(seq![seen, refused] =~= seq![seen] + seq![refused]);
}

/// Whether a removal is that of `root`.
pub open spec fn rooted(s: Removal, root: Seq<u8>) -> bool {
    &&& s.levels.len() > 0 ==> s.levels[0].dir == root
    &&& match s.at {
        Stage::List(p) => s.levels.len() == 0 ==> p == root,
        Stage::Inspect(p) => s.levels.len() == 0 ==> p == root,
        Stage::Unlink(p) => s.levels.len() == 0 ==> p == root,
        Stage::Rmdir(p) => s.levels.len() > 0 && s.levels.last().dir == p,
        _ => true,
    }
}

/// Success means that the name itself is gone: a removal is over only once the link has been
/// unlinked or the directory removed, which can only be done to an empty one.
pub proof fn success_means_gone(s: Removal, answer: Answer, root: Seq<u8>)
    ensures
        rooted(fresh(root), root),
        rooted(s, root) ==> rooted(s.step(answer), root),
        rooted(s, root) && s.at !is Done && s.step(answer).at is Done ==> s.removed(answer) == seq![
            Removed::Name(root),
        ] || s.removed(answer) == seq![Removed::Dir(root)],
{
    if rooted(s, root) {
        match (s.at, answer) {
            (Stage::Rmdir(p), Answer::Rmdir(Ok(_))) => {
                let fewer = s.levels.drop_last();
                if fewer.len() > 0 {
                    assert(fewer[0] == s.levels[0]);
                    if fewer.len() == 1 {
                        assert(advance(fewer).levels.last().dir == fewer.last().dir);
                    }
                }
            },
            _ => {},
        }
    }
}

/// A failure ends the removal: whatever comes afterwards changes nothing and removes nothing.
pub proof fn a_failure_is_final(s: Removal, answer: Answer)
    requires
        s.at is Failed,
    ensures
        s.step(answer) == s,
        s.removed(answer).len() == 0,
{
}

/// A name is listed only when `lstat` has just said that the name itself is no link, and inside the
/// tree only when it has said that it is a directory. A name is unlinked only when `lstat` has just
/// said that it is not a directory.
pub proof fn links_are_not_followed(s: Removal, answer: Answer, p: Seq<u8>)
    requires
        s.step(answer) != s,
    ensures
        s.step(answer).at == Stage::List(p) ==> s.at == Stage::Inspect(p) && answer
            != Answer::Inspected(Ok(NameKind::Link)) && (s.levels.len() == 0 || answer
            == Answer::Inspected(Ok(NameKind::Directory))),
        s.step(answer).at == Stage::Unlink(p) ==> s.at == Stage::Inspect(p) && (answer
            == Answer::Inspected(Ok(NameKind::Link)) || answer == Answer::Inspected(
            Ok(NameKind::Other),
        )),
        !(fresh(p).at is List),
{
}

/// Whether everything a removal is about to touch is the root of the tree or inside it.
pub open spec fn confined(s: Removal, root: Seq<u8>) -> bool {
    &&& forall|k: int|
        0 <= k < s.levels.len() ==> path::starts_with_of((#[trigger] s.levels[k]).dir, root)
    &&& forall|k: int, j: int|
        0 <= k < s.levels.len() && 0 <= j < s.levels[k].left.len() ==> path::starts_with_of(
            #[trigger] s.levels[k].left[j],
            root,
        )
    &&& match s.at {
        Stage::List(p) => path::starts_with_of(p, root),
        Stage::Inspect(p) => path::starts_with_of(p, root),
        Stage::Unlink(p) => path::starts_with_of(p, root),
        Stage::Rmdir(p) => path::starts_with_of(p, root),
        _ => true,
    }
}

/// Whether an answer could have come from a directory: what a directory lists lies inside it.
pub open spec fn plausible(s: Removal, answer: Answer) -> bool {
    match (s.at, answer) {
        (Stage::List(p), Answer::Listed(Ok(children))) => forall|j: int|
            0 <= j < children.len() ==> path::starts_with_of(#[trigger] children[j], p),
        _ => true,
    }
}

/// Going on to the next child stays inside.
proof fn lemma_advance_confined(levels: Seq<Level>, root: Seq<u8>)
    requires
        confined(Removal { levels, at: Stage::Done }, root),
    ensures
        confined(advance(levels), root),
{
    let s = Removal { levels, at: Stage::Done };
    let next = advance(levels);
    if levels.len() > 0 {
        let n = levels.len() - 1;
        assert(path::starts_with_of(s.levels[n].dir, root));
        if levels[n].left.len() > 0 {
            assert(path::starts_with_of(s.levels[n].left[0], root));
            assert forall|k: int, j: int|
                0 <= k < next.levels.len() && 0 <= j
                    < next.levels[k].left.len() implies path::starts_with_of(
                #[trigger] next.levels[k].left[j],
                root,
            ) by {
                if k < n {
                    assert(next.levels[k].left[j] == s.levels[k].left[j]);
                } else {
                    assert(next.levels[k].left[j] == s.levels[n].left[j + 1]);
                }
            }
            assert forall|k: int| 0 <= k < next.levels.len() implies path::starts_with_of(
                (#[trigger] next.levels[k]).dir,
                root,
            ) by {
                assert(next.levels[k].dir == s.levels[k].dir);
            }
        }
    }
}

/// Removing never leaves the tree it was given, whatever the answers: it starts inside, and each
/// step stays inside.
pub proof fn removal_is_confined(s: Removal, answer: Answer, root: Seq<u8>)
    requires
        plausible(s, answer),
    ensures
        confined(fresh(root), root),
        confined(s, root) ==> confined(s.step(answer), root),
{
    let whole = path::components_of(root);
    assert(whole.subrange(0, whole.len() as int) =~= whole);
    if confined(s, root) {
        match (s.at, answer) {
            (Stage::List(p), Answer::Listed(Ok(children))) => {
                let levels = s.levels.push(Level { dir: p, left: children });
                assert forall|k: int, j: int|
                    0 <= k < levels.len() && 0 <= j
                        < levels[k].left.len() implies path::starts_with_of(
                    #[trigger] levels[k].left[j],
                    root,
                ) by {
                    if k < s.levels.len() {
                        assert(levels[k].left[j] == s.levels[k].left[j]);
                    } else {
                        laws::starts_with_is_transitive(root, p, children[j]);
                    }
                }
                assert forall|k: int| 0 <= k < levels.len() implies path::starts_with_of(
                    (#[trigger] levels[k]).dir,
                    root,
                ) by {
                    if k < s.levels.len() {
                        assert(levels[k].dir == s.levels[k].dir);
                    }
                }
                lemma_advance_confined(levels, root);
            },
            (Stage::Unlink(_), Answer::Unlinked(_)) => {
                lemma_advance_confined(s.levels, root);
            },
            (Stage::Rmdir(_), Answer::Rmdir(Ok(_))) => {
                if s.levels.len() > 0 {
                    let fewer = s.levels.drop_last();
                    assert forall|k: int, j: int|
                        0 <= k < fewer.len() && 0 <= j
                            < fewer[k].left.len() implies path::starts_with_of(
                        #[trigger] fewer[k].left[j],
                        root,
                    ) by {
                        assert(fewer[k].left[j] == s.levels[k].left[j]);
                    }
                    assert forall|k: int| 0 <= k < fewer.len() implies path::starts_with_of(
                        (#[trigger] fewer[k]).dir,
                        root,
                    ) by {
                        assert(fewer[k].dir == s.levels[k].dir);
                    }
                    lemma_advance_confined(fewer, root);
                } else {
                    lemma_advance_confined(s.levels, root);
                }
            },
            _ => {},
        }
    }
}

/// What a directory lists lies inside it, when the names are names.
pub proof fn listings_are_plausible(dir: Seq<u8>, names: Seq<Seq<u8>>, j: int)
    requires
        forall|k: int| 0 <= k < names.len() ==> path::clean(#[trigger] names[k]),
        0 <= j < file::listed(dir, names).len(),
    ensures
        path::starts_with_of(file::listed(dir, names)[j], dir),
    decreases names.len(),
{
    let front = names.drop_last();
    assert forall|k: int| 0 <= k < front.len() implies path::clean(#[trigger] front[k]) by {
        assert(front[k] == names[k]);
    }
    let last = names[names.len() - 1];
    assert(path::clean(last));
    if j < file::listed(dir, front).len() {
        listings_are_plausible(dir, front, j);
    } else {
        laws::a_child_is_inside(dir, last);
    }
}


/// What comes next with directories being emptied: the next child of the innermost one is asked
/// about, and once it has no more the directory itself is removed.
pub proof fn children_come_before_their_directory(
    outer: Seq<Level>,
    dir: Seq<u8>,
    child: Seq<u8>,
    rest: Seq<Seq<u8>>,
)
    ensures
        advance(Seq::empty()) == (Removal { levels: Seq::empty(), at: Stage::Done }),
        advance(outer.push(Level { dir, left: Seq::empty() })) == (Removal {
            levels: outer.push(Level { dir, left: Seq::empty() }),
            at: Stage::Rmdir(dir),
        }),
        advance(outer.push(Level { dir, left: seq![child] + rest })) == (Removal {
            levels: outer.push(Level { dir, left: rest }),
            at: Stage::Inspect(child),
        }),
{
    let many = seq![child] + rest;
    assert(many.drop_first() =~= rest);
    assert(outer.push(Level { dir, left: many }).drop_last() =~= outer);
}

/// What each answer leads to. What a directory lists is what is emptied next; a directory is
/// listed, a link is unlinked, and anything else is unlinked unless it is the name the removal
/// began with, of which the listing then says why it cannot be removed; a name inside the tree
/// that cannot be unlinked is passed over, and every other failure ends the removal with its own
/// reason.
pub proof fn what_each_answer_leads_to(
    levels: Seq<Level>,
    p: Seq<u8>,
    children: Seq<Seq<u8>>,
    why: ErrorView,
    errno: Errno,
)
    ensures
        ({
            let listing = Removal { levels, at: Stage::List(p) };
            let asked = Removal { levels, at: Stage::Inspect(p) };
            let unlinking = Removal { levels, at: Stage::Unlink(p) };
            let leaving = Removal { levels, at: Stage::Rmdir(p) };
            let named = levels.len() == 0;
            &&& listing.step(Answer::Listed(Ok(children))) == advance(
                levels.push(Level { dir: p, left: children }),
            )
            &&& listing.step(Answer::Listed(Err(why))) == (Removal {
                levels,
                at: Stage::Failed(why),
            })
            &&& asked.step(Answer::Inspected(Ok(NameKind::Directory))) == listing
            &&& asked.step(Answer::Inspected(Ok(NameKind::Link))) == unlinking
            &&& asked.step(Answer::Inspected(Ok(NameKind::Other))) == (if named {
                listing
            } else {
                unlinking
            })
            &&& asked.step(Answer::Inspected(Err(why))) == (if named {
                listing
            } else {
                Removal { levels, at: Stage::Failed(why) }
            })
            &&& unlinking.step(Answer::Unlinked(Ok(()))) == advance(levels)
            &&& unlinking.step(Answer::Unlinked(Err(errno))) == (if named {
                Removal { levels, at: Stage::Failed(file::failure(errno, "unlink"@)) }
            } else {
                advance(levels)
            })
            &&& levels.len() > 0 ==> leaving.step(Answer::Rmdir(Ok(()))) == advance(
                levels.drop_last(),
            )
            &&& leaving.step(Answer::Rmdir(Err(errno))) == (Removal {
                levels,
                at: Stage::Failed(file::failure(errno, "rmdir"@)),
            })
            &&& fresh(p) == (Removal { levels: seq![], at: Stage::Inspect(p) })
        }),
{
}

/// What an event says: the paths that were listed, what the name is, and whether a removal was
/// refused, with the reason it was given.
pub proof fn what_an_event_says(
    v: Vec<PathBuf>,
    e: Error,
    m: Metadata,
    returned: i32,
    errno: Errno,
)
    ensures
        Event::Listed(Ok(v))@ == Answer::Listed(Ok(file::path_views(v@))),
        Event::Listed(Err(e))@ == Answer::Listed(Err(e@)),
        Event::Inspected(Ok(m))@ == Answer::Inspected(Ok(m.kind())),
        Event::Inspected(Err(e))@ == Answer::Inspected(Err(e@)),
        returned == -1 ==> Event::Unlinked(returned, errno)@ == Answer::Unlinked(Err(errno)),
        returned != -1 ==> Event::Unlinked(returned, errno)@ == Answer::Unlinked(Ok(())),
        returned == -1 ==> Event::Rmdir(returned, errno)@ == Answer::Rmdir(Err(errno)),
        returned != -1 ==> Event::Rmdir(returned, errno)@ == Answer::Rmdir(Ok(())),
{
}


/// An answer to something that was not asked changes nothing and removes nothing, and once a removal
/// is over no answer changes anything.
pub proof fn an_answer_nobody_asked_for(s: Removal, answer: Answer)
    requires
        match s.at {
            Stage::List(_) => !(answer is Listed),
            Stage::Inspect(_) => !(answer is Inspected),
            Stage::Unlink(_) => !(answer is Unlinked),
            Stage::Rmdir(_) => !(answer is Rmdir),
            Stage::Done => true,
            Stage::Failed(_) => true,
        },
    ensures
        s.step(answer) == s,
        s.removed(answer).len() == 0,
{
}

} // verus!
