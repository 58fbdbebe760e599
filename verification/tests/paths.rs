use std::borrow::Cow;

use eko::file::{Error, Metadata};
use eko::path::{Component, Path, PathBuf, StripPrefixError, MAIN_SEPARATOR, MAIN_SEPARATOR_BYTE};
use eko::Errno;

fn p(s: &str) -> Path<'_> {
    Path::new(s.as_bytes())
}

fn shown(b: Option<Path<'_>>) -> Option<&str> {
    match b {
        Some(q) => q.to_str(),
        None => None,
    }
}

#[test]
fn separators_agree() {
    assert_eq!(MAIN_SEPARATOR as u32, MAIN_SEPARATOR_BYTE as u32);
}

#[test]
fn final_components() {
    assert_eq!(shown(p("a/b.rs").file_name()), Some("b.rs"));
    assert_eq!(shown(p("b").file_name()), Some("b"));
    assert_eq!(shown(p("a/").file_name()), None);
    assert_eq!(shown(p("").file_name()), None);
    assert_eq!(shown(p("/").file_name()), None);
}

#[test]
fn parents() {
    assert_eq!(shown(p("/a/b").parent()), Some("/a"));
    assert_eq!(shown(p("/a").parent()), Some("/"));
    assert_eq!(shown(p("a/b").parent()), Some("a"));
    assert_eq!(shown(p("/").parent()), Some("/"));
    assert_eq!(shown(p("a").parent()), None);
    assert_eq!(shown(p("").parent()), None);
}

#[test]
fn extensions_and_stems() {
    assert_eq!(shown(p("a/b.tar.gz").extension()), Some("gz"));
    assert_eq!(shown(p("a/b.tar.gz").file_stem()), Some("b.tar"));
    assert_eq!(shown(p(".bashrc").extension()), None);
    assert_eq!(shown(p(".bashrc").file_stem()), Some(".bashrc"));
    assert_eq!(shown(p("a/b").extension()), None);
}

#[test]
fn a_dotted_name_is_its_stem_and_its_extension() {
    let q = p("x/lib.so");
    let stem = shown(q.file_stem()).unwrap().to_owned();
    let ext = shown(q.extension()).unwrap();
    assert_eq!(Some((stem + "." + ext).as_str()), shown(q.file_name()));
}

#[test]
fn joining() {
    assert_eq!(p("/a").join("b").as_path().to_str(), Some("/a/b"));
    assert_eq!(p("/a/").join("b").as_path().to_str(), Some("/a/b"));
    assert_eq!(p("").join("b").as_path().to_str(), Some("b"));
    assert_eq!(p("a").join("/b").as_path().to_str(), Some("/b"));
    assert_eq!(p("a").join(&b"c"[..]).as_path().to_str(), Some("a/c"));
}

#[test]
fn stripping_a_prefix_undoes_a_join() {
    let base = p("/srv/work");
    let joined = base.join("src/lib.rs");
    assert_eq!(joined.as_path().strip_prefix(base).unwrap().to_str(), Some("src/lib.rs"));
    assert!(p("/srv/worker").strip_prefix(base).is_err());
    assert_eq!(p("a//b/c").strip_prefix("a/").unwrap().to_str(), Some("b/c"));
    assert_eq!(p("/a/b").strip_prefix("").unwrap().to_str(), Some("/a/b"));
    assert_eq!(p("/a/b").strip_prefix("/").unwrap().to_str(), Some("a/b"));
    assert_eq!(p("a/b").strip_prefix("a/b").unwrap().to_str(), Some(""));
    assert_eq!(StripPrefixError.to_text(), "prefix not found");
}

#[test]
fn prefixes_match_whole_components() {
    assert!(p("/a/bc").starts_with("/a"));
    assert!(!p("/a/bc").starts_with("/a/b"));
    assert!(p("/a/b").starts_with("/a/b"));
    assert!(p("/a").starts_with("/"));
    assert!(p("a").starts_with("a/"));
    assert!(p("a").starts_with(""));
    assert!(p("a//b").starts_with("a/b"));
    assert!(!p("/usr/library").starts_with("/usr/lib"));
    assert!(!p("/a").starts_with("a"));
    assert!(!p("a").starts_with("/a"));
    assert!(!p("a").starts_with("a/b"));
    assert!(p("lib.rlib").ends_with(".rlib"));
    assert!(!p("lib.rlib").ends_with("x.rlib"));
}

#[test]
fn parts_leave_separators_out() {
    let parts = p("//a//b/").parts();
    assert_eq!(parts, vec![&b"a"[..], &b"b"[..]]);
    assert!(p("/").parts().is_empty());
}

#[test]
fn components_name_the_root() {
    let mut c = p("/a/./..").components();
    assert_eq!(c.as_path().to_str(), Some("/a/./.."));
    assert_eq!(c.next().unwrap().as_os_str(), b"/");
    assert_eq!(c.as_path().to_str(), Some("a/./.."));
    assert_eq!(c.next().unwrap().as_os_str(), b"a");
    assert!(matches!(c.next(), Some(Component::CurDir)));
    assert!(matches!(c.next(), Some(Component::ParentDir)));
    assert!(c.next().is_none());
}

#[test]
fn ancestors_from_the_longest() {
    let mut a = p("a/b/c").ancestors();
    assert_eq!(shown(a.next()), Some("a/b/c"));
    assert_eq!(shown(a.next()), Some("a/b"));
    assert_eq!(shown(a.next()), Some("a"));
    assert!(a.next().is_none());
    let mut root = p("/x").ancestors();
    assert_eq!(shown(root.next()), Some("/x"));
    assert_eq!(shown(root.next()), Some("/"));
    assert!(root.next().is_none());
    assert!(root.next().is_none());
    let mut seps = p("///x").ancestors();
    assert_eq!(shown(seps.next()), Some("///x"));
    assert_eq!(shown(seps.next()), Some("//"));
    assert_eq!(shown(seps.next()), Some("/"));
    assert!(seps.next().is_none());
    let mut two = p("//").ancestors();
    assert_eq!(shown(two.next()), Some("//"));
    assert_eq!(shown(two.next()), Some("/"));
    assert!(two.next().is_none());
    let mut none = p("").ancestors();
    assert_eq!(shown(none.next()), Some(""));
    assert!(none.next().is_none());
}

#[test]
fn owned_from_text_or_a_path() {
    assert_eq!(PathBuf::from(String::from("a/\u{e9}")).as_path().as_bytes(), b"a/\xc3\xa9");
    assert_eq!(PathBuf::from(p("/a/b")).as_path().to_str(), Some("/a/b"));
    assert_eq!(PathBuf::from(Path::new(&b"\xff"[..])).as_path().as_bytes(), b"\xff");
}

#[test]
fn popping() {
    let mut b = PathBuf::from("/a/b");
    assert!(b.pop());
    assert_eq!(b.as_path().to_str(), Some("/a"));
    assert!(b.pop());
    assert_eq!(b.as_path().to_str(), Some("/"));
    assert!(!b.pop());
    assert_eq!(b.as_path().to_str(), Some("/"));
    let mut name = PathBuf::from("foo");
    assert!(name.pop());
    assert_eq!(name.as_path().to_str(), Some(""));
    assert!(!name.pop());
    let mut trailing = PathBuf::from("/a/b//");
    assert!(trailing.pop());
    assert_eq!(trailing.as_path().to_str(), Some("/a"));
    let mut one = PathBuf::from("a/");
    assert!(one.pop());
    assert_eq!(one.as_path().to_str(), Some(""));
    let mut seps = PathBuf::from("//");
    assert!(!seps.pop());
    assert_eq!(seps.as_path().to_str(), Some("//"));
}

#[test]
fn a_pop_undoes_a_push() {
    let mut b = PathBuf::from("/srv/work");
    b.push("file");
    assert_eq!(b.as_path().to_str(), Some("/srv/work/file"));
    assert!(b.pop());
    assert_eq!(b.as_path().to_str(), Some("/srv/work"));
}

#[test]
fn setting_the_file_name() {
    let mut b = PathBuf::from("/a/b");
    b.set_file_name("c");
    assert_eq!(b.as_path().to_str(), Some("/a/c"));
    let mut one = PathBuf::from("foo");
    one.set_file_name("bar");
    assert_eq!(one.as_path().to_str(), Some("bar"));
    let mut slash = PathBuf::from("a/b/");
    slash.set_file_name("c");
    assert_eq!(slash.as_path().to_str(), Some("a/c"));
}

#[test]
fn setting_the_extension() {
    let mut b = PathBuf::from("a/b.rs");
    b.set_extension("o");
    assert_eq!(b.as_path().to_str(), Some("a/b.o"));
    assert_eq!(p("a/b").with_extension("o").as_path().to_str(), Some("a/b.o"));
    assert_eq!(p("a/b.rs").with_extension("").as_path().to_str(), Some("a/b"));
}

#[test]
fn a_path_for_a_call_ends_in_nul() {
    assert_eq!(p("a/b").as_c(), b"a/b\0".to_vec());
}

#[test]
fn text_of_a_path() {
    let bad = Path::new(&[102, 255, 111][..]);
    assert_eq!(bad.to_str(), None);
    assert_eq!(bad.display().to_text(), "f\u{FFFD}o");
    assert!(matches!(p("fine").to_string_lossy(), Cow::Borrowed("fine")));
    assert!(matches!(bad.to_string_lossy(), Cow::Owned(_)));
    assert_eq!(bad.to_string_lossy(), "f\u{FFFD}o");
}

#[test]
fn several_parts_at_once() {
    let b = PathBuf::from_parts(&["/usr", "lib", "x"]);
    assert_eq!(b.as_path().to_str(), Some("/usr/lib/x"));
    let mut c = PathBuf::new();
    c.extend(&["a", "/b", "c"]);
    assert_eq!(c.into_bytes(), b"/b/c".to_vec());
}

#[test]
fn what_the_kernel_says_of_a_path() {
    let q = p("x");
    let dir = Metadata { size: 0, mode_bits: 0o040755, mtime: 0 };
    let found = q.metadata(0, Errno(0), dir);
    assert!(q.is_dir(&found));
    assert!(!q.is_file(&found));
    let missing = q.metadata(-1, Errno(2), dir);
    assert_eq!(missing, Err(Error::from_errno(Errno(2), "stat")));
    assert!(!q.is_dir(&missing));
    assert!(q.name_exists(0));
    assert!(!q.name_exists(-1));
    let resolved = q.canonicalize(Some(b"/r/x\0junk".to_vec()), Errno(0)).unwrap();
    assert_eq!(resolved.as_path().to_str(), Some("/r/x"));
    assert_eq!(q.canonicalize(None, Errno(2)).unwrap_err().what(), "realpath");
}
