use eko::file::{Error, Metadata};
use eko::fs;
use eko::fs::remove::{Event, Todo};
use eko::path::{Path, PathBuf};
use eko::Errno;

fn p(s: &str) -> Path<'_> {
    Path::new(s.as_bytes())
}

const NONE: Errno = Errno(0);

fn dir() -> Metadata {
    Metadata { size: 0, mode_bits: 0o040755, mtime: 0 }
}

fn link() -> Metadata {
    Metadata { size: 0, mode_bits: 0o120777, mtime: 0 }
}

fn plain() -> Metadata {
    Metadata { size: 0, mode_bits: 0o100644, mtime: 0 }
}

fn text(q: &PathBuf) -> String {
    q.as_path().to_str().unwrap().to_owned()
}

#[test]
fn directories_that_are_there() {
    assert_eq!(fs::mkdir(0, NONE), Ok(()));
    assert_eq!(fs::mkdir(-1, Errno(libc::EEXIST)), Ok(()));
    assert_eq!(fs::mkdir(-1, Errno(libc::EACCES)), Err(Errno(libc::EACCES)));
    assert_eq!(fs::rmdir(-1, Errno(39)), Err(Errno(39)));
    assert_eq!(fs::rmdir(0, NONE), Ok(()));
    assert!(fs::name_exists(0, NONE));
    assert!(!fs::name_exists(-1, Errno(2)));
    let mut way = fs::create_dir_all(p("/a/b"));
    assert_eq!(way.todo(), Some(&b"/a\0"[..]));
    way.step(-1, Errno(13));
    assert_eq!(way.todo(), None);
    assert_eq!(way.finish(), Err(Error::from_errno(Errno(13), "mkdir")));
}

#[test]
fn a_listing_that_fails_at_the_end() {
    let mut l = fs::read_dir(p("/d"), true, NONE).unwrap();
    l.entry(b".\0\0");
    l.entry(b"name\0old");
    l.entry(b"full");
    let paths: Vec<String> = l.end(NONE).unwrap().iter().map(text).collect();
    assert_eq!(paths, vec!["/d/name", "/d/full"]);
    let broken = fs::read_dir(p("/d"), true, NONE).unwrap();
    assert_eq!(broken.end(Errno(5)).unwrap_err().what(), "readdir");
    match fs::read_dir(p("/d"), false, Errno(2)) {
        Err(e) => assert_eq!(e.what(), "opendir"),
        Ok(_) => panic!("it could not be opened"),
    }
}

#[test]
fn removing_a_tree_that_can_be_removed() {
    let mut r = fs::remove_dir_all(p("/t"));
    let mut out = Vec::new();
    loop {
        match r.todo() {
            Todo::List(q) => {
                let names = match text(&q).as_str() {
                    "/t" => vec![PathBuf::from("/t/a"), PathBuf::from("/t/s")],
                    "/t/s" => vec![PathBuf::from("/t/s/b")],
                    _ => panic!("only directories are listed"),
                };
                r.step(Event::Listed(Ok(names)));
            }
            Todo::Inspect(q) => {
                let found = match text(&q).as_str() {
                    "/t" | "/t/s" => dir(),
                    "/t/s/b" => link(),
                    _ => plain(),
                };
                r.step(Event::Inspected(Ok(found)));
            }
            Todo::Unlink(q) => {
                out.push(text(&q));
                r.step(Event::Unlinked(0, NONE));
            }
            Todo::Rmdir(q) => {
                out.push(text(&q) + "/");
                r.step(Event::Rmdir(0, NONE));
            }
            Todo::Done => break,
            Todo::Failed(_) => panic!("nothing failed"),
        }
    }
    assert_eq!(out, vec!["/t/a", "/t/s/b", "/t/s/", "/t/"]);
}

#[test]
fn removing_an_empty_directory() {
    let mut r = fs::remove_dir_all(p("/t"));
    r.step(Event::Inspected(Ok(dir())));
    r.step(Event::Listed(Ok(Vec::new())));
    assert!(matches!(r.todo(), Todo::Rmdir(_)));
    r.step(Event::Rmdir(-1, Errno(16)));
    match r.todo() {
        Todo::Failed(e) => assert_eq!((e.errno(), e.what()), (Errno(16), "rmdir")),
        _ => panic!("it failed"),
    }
}

#[test]
fn the_first_failure_ends_a_removal() {
    let mut r = fs::remove_dir_all(p("/t"));
    r.step(Event::Inspected(Ok(dir())));
    r.step(Event::Listed(Ok(vec![PathBuf::from("/t/a"), PathBuf::from("/t/b")])));
    r.step(Event::Inspected(Err(Error::from_errno(Errno(13), "lstat"))));
    r.step(Event::Unlinked(0, NONE));
    r.step(Event::Rmdir(0, NONE));
    match r.todo() {
        Todo::Failed(e) => assert_eq!(e.what(), "lstat"),
        _ => panic!("it failed"),
    }
    let mut unlisted = fs::remove_dir_all(p("/t"));
    unlisted.step(Event::Inspected(Err(Error::from_errno(Errno(2), "lstat"))));
    unlisted.step(Event::Listed(Err(Error::from_errno(Errno(2), "opendir"))));
    match unlisted.todo() {
        Todo::Failed(e) => assert_eq!(e.what(), "opendir"),
        _ => panic!("it failed"),
    }
}

#[test]
fn a_link_to_a_directory_is_only_unlinked() {
    let mut r = fs::remove_dir_all(p("/l"));
    assert!(matches!(r.todo(), Todo::Inspect(q) if text(&q) == "/l"));
    r.step(Event::Inspected(Ok(link())));
    assert!(matches!(r.todo(), Todo::Unlink(q) if text(&q) == "/l"));
    r.step(Event::Unlinked(0, NONE));
    assert!(matches!(r.todo(), Todo::Done));
    let mut kept = fs::remove_dir_all(p("/l"));
    kept.step(Event::Inspected(Ok(link())));
    kept.step(Event::Unlinked(-1, Errno(13)));
    match kept.todo() {
        Todo::Failed(e) => assert_eq!((e.errno(), e.what()), (Errno(13), "unlink")),
        _ => panic!("it could not be unlinked"),
    }
}

#[test]
fn a_plain_file_is_not_a_tree() {
    let mut r = fs::remove_dir_all(p("/f"));
    r.step(Event::Inspected(Ok(plain())));
    assert!(matches!(r.todo(), Todo::List(_)));
    r.step(Event::Listed(Err(Error::from_errno(Errno(20), "opendir"))));
    match r.todo() {
        Todo::Failed(e) => assert_eq!((e.errno(), e.what()), (Errno(20), "opendir")),
        _ => panic!("it is no directory"),
    }
}
