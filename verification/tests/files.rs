use std::borrow::Cow;

use eko::file::buffer::{Write, BUFFERED};
use eko::file::remove::{Event, RemoveDirAll, Todo};
use eko::file::temp::{Counter, TempDirStep, TRIES};
use eko::file::whole::Call;
use eko::file::{
    BufWriter, Error, ErrorKind, File, MakeDirs, Metadata, NameKind, Opening, ReadStep, ReadToEnd, ReadToEndStep,
    TempDir, WriteAll, WriteStep,
};
use eko::lines::LineStep;
use eko::path::Path;
use eko::Errno;

fn p(s: &str) -> Path<'_> {
    Path::new(s.as_bytes())
}

const INTR: Errno = Errno(libc::EINTR);

const NONE: Errno = Errno(0);

#[test]
fn categories_of_failure() {
    assert_eq!(ErrorKind::of(Errno(libc::ENOENT)), ErrorKind::NotFound);
    assert_eq!(ErrorKind::of(Errno(libc::EACCES)), ErrorKind::PermissionDenied);
    assert_eq!(ErrorKind::of(Errno(libc::EPERM)), ErrorKind::PermissionDenied);
    assert_eq!(ErrorKind::of(Errno(libc::EISDIR)), ErrorKind::IsADirectory);
    assert_eq!(ErrorKind::of(Errno(libc::EILSEQ)), ErrorKind::InvalidData);
    assert_eq!(ErrorKind::of(Errno(libc::EIO)), ErrorKind::Other);
}

#[test]
fn errors_as_text() {
    let e = Error::from_errno(Errno(2), "open");
    assert_eq!(e.to_text("No such file or directory"), "open: No such file or directory");
    assert!(e.is_not_found());
    assert_eq!(e.clone(), e);
    let built = Error::other(Cow::Owned("because 42".to_owned()));
    assert_eq!(built.to_text("never shown"), "because 42");
    assert_eq!(built.errno(), Errno(0));
    assert_eq!(built.kind(), ErrorKind::Other);
    let input = Error::new(ErrorKind::InvalidInput, Cow::Borrowed("empty"));
    assert_eq!((input.kind(), input.what()), (ErrorKind::InvalidInput, "empty"));
    assert_eq!(Error::too_large().errno(), Errno(libc::EFBIG));
    assert_eq!(Error::invalid_data("bad magic").kind(), ErrorKind::InvalidData);
    assert_eq!(Error::no_cwd(Errno(2)).what(), "getcwd");
    assert!(eko::file::is_already_exists(&Error::from_errno(Errno(libc::EEXIST), "link")));
    assert!(!eko::file::is_already_exists(&e));
}

#[test]
fn ways_of_opening() {
    let c = Opening::Create.call(p("out"));
    assert_eq!(c.path, b"out\0".to_vec());
    assert_eq!(c.flags, libc::O_WRONLY | libc::O_CREAT | libc::O_TRUNC);
    assert_eq!(c.mode, Some(0o644));
    let a = Opening::Append.call(p("log"));
    assert_eq!(a.flags, libc::O_WRONLY | libc::O_CREAT | libc::O_APPEND);
    let r = Opening::Open.call(p("in"));
    assert_eq!((r.flags, r.mode), (libc::O_RDONLY, None));
    let rw = Opening::OpenRw.call(p("in"));
    assert_eq!((rw.flags, rw.mode), (libc::O_RDWR, None));
    let crw = Opening::CreateRw.call(p("in"));
    assert_eq!(crw.flags, libc::O_RDWR | libc::O_CREAT | libc::O_TRUNC);
    assert_eq!(File::open(7, NONE).unwrap().raw(), 7);
    assert_eq!(File::open(0, NONE).unwrap().raw(), 0);
    assert_eq!(File::open(-1, Errno(2)).unwrap_err().what(), "open");
    assert_eq!(File::create(-1, Errno(2)).unwrap_err().what(), "create");
    assert_eq!(File::append(-1, Errno(2)).unwrap_err().what(), "append");
    assert_eq!(File::open_rw(-1, Errno(2)).unwrap_err().what(), "open");
    assert_eq!(File::create_rw(-1, Errno(2)).unwrap_err().what(), "create");
}

#[test]
fn positions_and_sizes() {
    let mut f = File::open(3, NONE).unwrap();
    assert_eq!(f.seek(40, NONE), Ok(40));
    assert_eq!(f.seek(-1, Errno(29)).unwrap_err().what(), "lseek");
    assert_eq!(f.stream_position(12, NONE), Ok(12));
    assert_eq!(f.rewind(0, NONE), Ok(()));
    assert!(f.rewind(-1, Errno(29)).is_err());
    assert_eq!(eko::file::seek_offset(99), 99);
    let m = Metadata { size: 10, mode_bits: 0o100444, mtime: 77 };
    assert_eq!(f.metadata(0, NONE, m), Ok(m));
    assert_eq!(f.len(0, NONE, m), Ok(10));
    assert_eq!(f.is_empty(0, NONE, m), Ok(false));
    assert_eq!(f.len(-1, Errno(9), m).unwrap_err().what(), "fstat");
    assert!(m.is_file() && !m.is_dir() && m.readonly() && !m.is_empty());
    assert_eq!((m.len(), m.mode(), m.modified_secs()), (10, 0o100444, 77));
    let link = Metadata { size: 1, mode_bits: 0o120777, mtime: 0 };
    assert!(!link.is_file() && !link.is_dir() && !link.readonly());
}

#[test]
fn reading_to_the_end() {
    let mut r = ReadToEnd::new(b"was:".to_vec());
    assert!(matches!(r.step(-1, INTR, b""), ReadToEndStep::More));
    assert!(matches!(r.step(3, NONE, b"abcdef"), ReadToEndStep::More));
    assert!(matches!(r.step(2, NONE, b"de"), ReadToEndStep::More));
    assert!(matches!(r.step(0, NONE, b""), ReadToEndStep::Done(5)));
    assert_eq!(r.into_contents(), b"was:abcde".to_vec());
    let mut bad = ReadToEnd::new(Vec::new());
    match bad.step(-1, Errno(5), b"") {
        ReadToEndStep::Failed(e) => assert_eq!((e.errno(), e.what()), (Errno(5), "read")),
        _ => panic!("it failed"),
    }
    let mut f = File::open(3, NONE).unwrap();
    assert!(matches!(f.read(9, NONE), ReadStep::Got(9)));
    assert!(matches!(f.read(-1, INTR), ReadStep::Again));
    assert!(matches!(f.read(-1, Errno(5)), ReadStep::Failed(_)));
}

#[test]
fn short_writes_go_on() {
    let mut w = WriteAll::new(b"hello");
    assert!(matches!(w.step(2, NONE), WriteStep::More));
    assert_eq!(w.rest(), b"llo");
    assert!(matches!(w.step(-1, INTR), WriteStep::More));
    assert!(matches!(w.step(0, NONE), WriteStep::More));
    assert_eq!(w.rest(), b"llo");
    assert!(matches!(w.step(3, NONE), WriteStep::More));
    assert!(w.rest().is_empty());
    match WriteAll::new(b"x").step(-1, Errno(28)) {
        WriteStep::Failed(e) => assert_eq!(e.what(), "write"),
        _ => panic!("it failed"),
    }
}

#[test]
fn whole_files() {
    let mut r = eko::file::read(p("in"));
    match r.call() {
        Call::Open(c) => assert_eq!(c.path, b"in\0".to_vec()),
        _ => panic!("it is opened first"),
    }
    r.opened(5, NONE);
    assert!(matches!(r.call(), Call::Read(5)));
    r.took(3, NONE, b"abc");
    r.took(-1, INTR, b"");
    r.took(0, NONE, b"");
    assert!(matches!(r.call(), Call::Nothing));
    assert_eq!(r.finish().unwrap().unwrap(), b"abc".to_vec());
    let mut missing = eko::file::read(p("in"));
    missing.opened(-1, Errno(2));
    assert!(missing.finish().unwrap().unwrap_err().is_not_found());

    let mut w = eko::file::write(p("out"), b"abc");
    w.opened(6, NONE);
    assert!(matches!(w.call(), Call::Write(6, b"abc")));
    w.wrote(1, NONE);
    assert!(matches!(w.call(), Call::Write(6, b"bc")));
    w.wrote(2, NONE);
    assert_eq!(w.finish(), Some(Ok(())));
    let mut full = eko::file::write(p("out"), b"abc");
    full.opened(6, NONE);
    full.wrote(-1, Errno(28));
    assert_eq!(full.finish().unwrap().unwrap_err().what(), "write");
}

#[test]
fn a_copy_holds_the_contents() {
    let mut c = eko::file::copy(p("a"), p("b"));
    c.opened(3, NONE);
    c.took(4, NONE, b"data");
    c.took(0, NONE, b"");
    match c.call() {
        Call::Open(o) => {
            assert_eq!(o.path, b"b\0".to_vec());
            assert_eq!(o.flags, libc::O_WRONLY | libc::O_CREAT | libc::O_TRUNC);
        }
        _ => panic!("the destination comes next"),
    }
    c.opened(4, NONE);
    assert!(matches!(c.call(), Call::Write(4, b"data")));
    c.wrote(3, NONE);
    assert!(matches!(c.call(), Call::Write(4, b"a")));
    c.wrote(1, NONE);
    assert_eq!(c.finish(), Some(Ok(4)));
    let mut failing = eko::fs::copy(p("a"), p("b"));
    failing.opened(3, NONE);
    failing.took(0, NONE, b"");
    failing.opened(-1, Errno(13));
    assert_eq!(failing.finish().unwrap().unwrap_err().what(), "create");
}

#[test]
fn text_files() {
    assert_eq!(eko::file::read_to_string(b"ok".to_vec()), Ok("ok".to_owned()));
    let e = eko::file::read_to_string(vec![0xFF]).unwrap_err();
    assert_eq!((e.errno(), e.kind(), e.what()), (Errno(libc::EILSEQ), ErrorKind::InvalidData, "not utf-8"));
}

#[test]
fn questions_about_names() {
    let m = Metadata { size: 0, mode_bits: 0o100644, mtime: 0 };
    assert_eq!(eko::file::metadata(-1, Errno(2), m).unwrap_err().what(), "stat");
    assert_eq!(eko::file::symlink_metadata(-1, Errno(2), m).unwrap_err().what(), "lstat");
    assert_eq!(eko::file::symlink_metadata(0, NONE, m), Ok(m));
    assert!(eko::file::is_file(&Ok(m)));
    assert!(!eko::file::is_dir(&Ok(m)));
    assert!(eko::file::name_exists(0));
    assert!(!eko::file::name_exists(-1));
    assert_eq!(eko::file::hard_link(-1, Errno(libc::EEXIST)).unwrap_err().what(), "link");
    assert_eq!(eko::file::rename(-1, Errno(2)).unwrap_err().what(), "rename");
    assert_eq!(eko::file::rename(0, NONE), Ok(()));
    assert_eq!(eko::file::read_link(2, b"ab\0\0".to_vec(), NONE).unwrap().into_bytes(), b"ab".to_vec());
    assert_eq!(eko::file::read_link(-1, vec![0; 4], Errno(22)).unwrap_err().what(), "readlink");
    assert_eq!(eko::file::canonicalize(Some(b"/full".to_vec()), NONE).unwrap().into_bytes(), b"/full".to_vec());
}

#[test]
fn absolute_paths() {
    let cwd = Some(b"/work".to_vec());
    let joined = eko::file::absolute(p("x/../y"), cwd.clone(), NONE).unwrap();
    assert_eq!(joined.into_bytes(), b"/work/x/../y".to_vec());
    assert_eq!(eko::file::absolute(p("/x"), None, Errno(2)).unwrap().into_bytes(), b"/x".to_vec());
    assert_eq!(eko::file::absolute(p("x"), None, Errno(2)).unwrap_err().what(), "getcwd");
}

#[test]
fn directories_on_the_way() {
    let asked = |mut way: MakeDirs| {
        let mut out = Vec::new();
        while let Some(c) = way.todo() {
            out.push(String::from_utf8(c.to_vec()).unwrap());
            way.step(if out.len() == 2 { -1 } else { 0 }, Errno(libc::EEXIST));
        }
        assert_eq!(way.finish(), Ok(()));
        out
    };
    let made = vec!["/a\0", "/a/b\0", "/a/b/c\0"];
    assert_eq!(asked(eko::file::create_dir_all(p("/a//b/c"))), made);
    assert_eq!(asked(eko::fs::create_dir_all(p("/a//b/c"))), made);
    assert_eq!(asked(eko::file::create_dir_all(p("a/b"))), vec!["a\0", "a/b\0"]);
    assert!(asked(eko::file::create_dir_all(p("/"))).is_empty());
    assert_eq!(eko::file::made_dir(-1, Errno(libc::EEXIST)), Ok(()));
    let mut refused = eko::file::create_dir_all(p("a/b/c"));
    refused.step(0, Errno(0));
    refused.step(-1, Errno(13));
    assert!(refused.todo().is_none());
    refused.step(0, Errno(0));
    assert_eq!(refused.finish(), Err(Error::from_errno(Errno(13), "mkdir")));
}

#[test]
fn listings_leave_the_dots_out() {
    let mut l = eko::file::Listing::start(p("/d"), true, NONE).unwrap();
    for name in [&b"."[..], &b"x"[..], &b".."[..], &b"..."[..], &b".h"[..]] {
        l.entry(name);
    }
    let paths: Vec<Vec<u8>> = l.into_paths().into_iter().map(|q| q.into_bytes()).collect();
    assert_eq!(paths, vec![b"/d/x".to_vec(), b"/d/...".to_vec(), b"/d/.h".to_vec()]);
    assert!(eko::file::Listing::start(p("/d"), false, Errno(13)).is_err());
    assert!(eko::file::is_dots(b".") && eko::file::is_dots(b"..") && !eko::file::is_dots(b"") && !eko::file::is_dots(b"a"));
}

#[test]
fn scratch_names() {
    let mut counter = Counter::new();
    assert_eq!((counter.take(), counter.take(), counter.take()), (0, 1, 2));
    let s = TempDir::new(Some(b"/t".to_vec()), "rust", ".d");
    assert_eq!(s.candidate(123, 7).into_bytes(), b"/t/rust123-7.d".to_vec());
    assert_ne!(s.candidate(123, 8).into_bytes(), s.candidate(123, 7).into_bytes());
    let mut here = TempDir::new_in(p("/o"), "p", "");
    let at = here.candidate(1, 0);
    match here.step(at, 0, NONE) {
        TempDirStep::Made(d) => assert_eq!(d.path().as_bytes(), b"/o/p1-0"),
        _ => panic!("it was made"),
    }
}

#[test]
fn a_taken_scratch_name_is_tried_again() {
    let mut s = TempDir::new_in(p("/o"), "p", "");
    for n in 0..TRIES - 1 {
        let at = s.candidate(1, n as u64);
        assert!(matches!(s.step(at, -1, Errno(libc::EEXIST)), TempDirStep::Again));
    }
    let at = s.candidate(1, 99);
    match s.step(at, -1, Errno(libc::EEXIST)) {
        TempDirStep::Failed(e) => assert_eq!((e.errno(), e.what()), (Errno(libc::EEXIST), "tempdir")),
        _ => panic!("there are no more tries"),
    }
    let mut other = TempDir::new_in(p("/o"), "p", "");
    let at = other.candidate(1, 0);
    match other.step(at, -1, Errno(13)) {
        TempDirStep::Failed(e) => assert_eq!(e.what(), "mkdir"),
        _ => panic!("it failed"),
    }
}

/// A filesystem whose `/t` holds a file, a directory with a file in it, and a link to a directory.
fn removed_from(mut r: RemoveDirAll) -> Vec<String> {
    let dir = Metadata { size: 0, mode_bits: 0o040755, mtime: 0 };
    let link = Metadata { size: 0, mode_bits: 0o120777, mtime: 0 };
    let mut listing: Vec<Vec<&str>> = Vec::new();
    let mut out = Vec::new();
    let text = |c: Vec<u8>| String::from_utf8(c[..c.len() - 1].to_vec()).unwrap();
    loop {
        match r.todo() {
            Todo::Open(c) => {
                let names = match text(c).as_str() {
                    "/t" => vec![".", "f", "sub", "link", ".."],
                    "/t/sub" => vec!["g"],
                    _ => panic!("a link was followed"),
                };
                listing.push(names.into_iter().rev().collect());
                r.step(Event::Opened(true));
            }
            Todo::Next => {
                let name = listing.last_mut().unwrap().pop();
                r.step(Event::Entry(name.map(|n| n.as_bytes().to_vec())));
            }
            Todo::Inspect(c) => {
                let found = match text(c).as_str() {
                    "/t" | "/t/sub" => Some(dir),
                    "/t/link" | "/l" => Some(link),
                    _ => None,
                };
                r.step(Event::Inspected(found));
            }
            Todo::Unlink(c) => {
                out.push(text(c));
                r.step(Event::Unlinked);
            }
            Todo::Leave(c) => {
                listing.pop();
                out.push(text(c) + "/");
                r.step(Event::Left);
            }
            Todo::Done => return out,
        }
    }
}

#[test]
fn removing_a_tree() {
    let r = eko::file::remove_dir_all(p("/t"));
    assert_eq!(removed_from(r), vec!["/t/f", "/t/sub/g", "/t/sub/", "/t/link", "/t/"]);
    assert_eq!(removed_from(eko::file::remove_dir_all(p("/l"))), vec!["/l"]);
}

#[test]
fn a_locked_tree_stays() {
    let mut r = eko::file::remove_dir_all(p("/t"));
    r.step(Event::Unlinked);
    assert!(matches!(r.todo(), Todo::Inspect(_)));
    r.step(Event::Inspected(None));
    assert!(matches!(r.todo(), Todo::Open(_)));
    r.step(Event::Opened(false));
    assert!(matches!(r.todo(), Todo::Done));
}

#[test]
fn standard_streams() {
    let mut out = eko::file::stdout();
    assert_eq!(out.raw(), 1);
    assert_eq!(out.flush(), Ok(()));
    assert_eq!(eko::file::stderr().raw(), 2);
    assert_eq!(out.write_all(b"x").rest(), b"x");
    assert!(out.is_terminal(1) && !out.is_terminal(0));
}

fn line(step: LineStep) -> Option<String> {
    match step {
        LineStep::Line(s) => Some(s),
        _ => None,
    }
}

#[test]
fn lines_of_standard_input() {
    let mut s = eko::file::stdin();
    assert!(matches!(s.read_line(), LineStep::Read));
    assert_eq!(s.supply(4, NONE, b"ab\nc"), Ok(()));
    assert_eq!(line(s.read_line()), Some("ab".to_owned()));
    assert!(matches!(s.read_line(), LineStep::Read));
    assert_eq!(s.supply(-1, INTR, b""), Ok(()));
    assert_eq!(s.supply(3, NONE, b"d\n\xFF"), Ok(()));
    assert_eq!(line(s.read_line()), Some("cd".to_owned()));
    assert!(matches!(s.read_line(), LineStep::Read));
    assert_eq!(s.supply(0, NONE, b""), Ok(()));
    assert_eq!(line(s.read_line()), Some("\u{FFFD}".to_owned()));
    assert!(matches!(s.read_line(), LineStep::End));
    assert_eq!(s.supply(-1, Errno(5), b"").unwrap_err().what(), "read");
}

#[test]
fn lines_do_not_depend_on_how_they_arrive() {
    let input = b"one\n\ntwo\nlast";
    let mut whole = eko::file::stdin().lines();
    whole.supply(13, NONE, input).unwrap();
    whole.supply(0, NONE, b"").unwrap();
    let mut bytewise = eko::file::stdin().lines();
    let mut one_by_one = Vec::new();
    for b in input {
        bytewise.supply(1, NONE, &[*b]).unwrap();
        if let LineStep::Line(s) = bytewise.next() {
            one_by_one.push(s);
        }
    }
    bytewise.supply(0, NONE, b"").unwrap();
    one_by_one.push(line(bytewise.next()).unwrap());
    let mut all = Vec::new();
    while let LineStep::Line(s) = whole.next() {
        all.push(s);
    }
    assert_eq!(all, vec!["one", "", "two", "last"]);
    assert_eq!(all, one_by_one);
}

#[test]
fn buffering_keeps_the_order() {
    let mut w = BufWriter::new(String::new());
    assert_eq!(w.write_str("ab"), Ok(()));
    assert_eq!(w.write_str("cd"), Ok(()));
    assert_eq!(w.flush(), Ok(()));
    assert_eq!(w.write_str("e"), Ok(()));
    assert_eq!(w.into_inner(), "abcde");
}

/// Counts the writes it gets.
struct Counting(Vec<usize>);

impl Write for Counting {
    fn write_str(&mut self, s: &str) -> Result<(), eko::file::buffer::WriteError> {
        self.0.push(s.len());
        Ok(())
    }
}

#[test]
fn a_full_buffer_is_written() {
    let mut w = BufWriter::new(Counting(Vec::new()));
    let almost = "x".repeat(BUFFERED - 1);
    w.write_str(&almost).unwrap();
    w.write_str("y").unwrap();
    w.write_str("z").unwrap();
    assert_eq!(w.into_inner().0, vec![BUFFERED, 1]);
    assert!(BufWriter::new(Counting(Vec::new())).into_inner().0.is_empty());
}

#[test]
fn what_was_written_is_read_back() {
    let bytes = b"one two three";
    let mut w = eko::file::write(p("/f"), bytes);
    w.opened(3, NONE);
    let mut file = Vec::new();
    while let Call::Write(_, left) = w.call() {
        let n = left.len().min(5);
        file.extend_from_slice(&left[..n]);
        w.wrote(n as isize, NONE);
    }
    assert!(matches!(w.finish(), Some(Ok(()))));
    let mut r = eko::file::read(p("/f"));
    r.opened(4, NONE);
    let mut at = 0;
    while let Call::Read(4) = r.call() {
        let n = (file.len() - at).min(4);
        r.took(-1, INTR, &[]);
        r.took(n as isize, NONE, &file[at..]);
        at += n;
    }
    assert_eq!(r.finish().unwrap().unwrap(), bytes.to_vec());
}

#[test]
fn kinds_of_names() {
    let kind = |mode_bits: u32| Metadata { size: 0, mode_bits, mtime: 0 }.name_kind();
    assert_eq!(kind(0o040755), NameKind::Directory);
    assert_eq!(kind(0o120777), NameKind::Link);
    assert_eq!(kind(0o100644), NameKind::Other);
}
