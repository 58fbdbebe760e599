use eko::sys;
use eko::text;
use eko::time::{epoch_secs, Duration, Instant, Timespec};
use eko::{checked, proc, sleep_ms, Errno};

#[test]
fn header_numbers() {
    assert_eq!(sys::EPERM, libc::EPERM);
    assert_eq!(sys::ENOENT, libc::ENOENT);
    assert_eq!(sys::EINTR, libc::EINTR);
    assert_eq!(sys::EAGAIN, libc::EAGAIN);
    assert_eq!(sys::EWOULDBLOCK, libc::EWOULDBLOCK);
    assert_eq!(sys::EACCES, libc::EACCES);
    assert_eq!(sys::EEXIST, libc::EEXIST);
    assert_eq!(sys::EISDIR, libc::EISDIR);
    assert_eq!(sys::EINVAL, libc::EINVAL);
    assert_eq!(sys::EFBIG, libc::EFBIG);
    assert_eq!(sys::EPIPE, libc::EPIPE);
    assert_eq!(sys::ENAMETOOLONG, libc::ENAMETOOLONG);
    assert_eq!(sys::EILSEQ, libc::EILSEQ);
    assert_eq!(sys::O_RDONLY, libc::O_RDONLY);
    assert_eq!(sys::O_WRONLY, libc::O_WRONLY);
    assert_eq!(sys::O_RDWR, libc::O_RDWR);
    assert_eq!(sys::O_CREAT, libc::O_CREAT);
    assert_eq!(sys::O_TRUNC, libc::O_TRUNC);
    assert_eq!(sys::O_APPEND, libc::O_APPEND);
    assert_eq!(sys::O_NONBLOCK, libc::O_NONBLOCK);
    assert_eq!(sys::S_IFMT, libc::S_IFMT);
    assert_eq!(sys::S_IFDIR, libc::S_IFDIR);
    assert_eq!(sys::S_IFREG, libc::S_IFREG);
    assert_eq!(sys::S_IFLNK, libc::S_IFLNK);
    assert_eq!(sys::PROT_NONE, libc::PROT_NONE);
    assert_eq!(sys::PROT_READ, libc::PROT_READ);
    assert_eq!(sys::PROT_WRITE, libc::PROT_WRITE);
    assert_eq!(sys::PROT_EXEC, libc::PROT_EXEC);
    assert_eq!(sys::MAP_PRIVATE, libc::MAP_PRIVATE);
    assert_eq!(sys::MAP_ANON, libc::MAP_ANON);
    assert_eq!(sys::SIGKILL, libc::SIGKILL);
    assert_eq!(sys::SIGTERM, libc::SIGTERM);
}

#[test]
fn a_return_value_is_checked() {
    assert_eq!(checked(-1, Errno(13)), Err(Errno(13)));
    assert_eq!(checked(0, Errno(13)), Ok(0));
    assert_eq!(checked(-2, Errno(13)), Ok(-2));
}

#[test]
fn errno_sentences() {
    let mut buf = [0u8; 128];
    buf[..4].copy_from_slice(b"oops");
    assert_eq!(Errno(5).message(0, &buf), "oops");
    assert_eq!(Errno(5).message(22, &buf), "unknown error");
    buf[0] = 255;
    assert_eq!(Errno(5).message(0, &buf), "unknown error");
    assert_eq!(Errno(5).message(0, &[b'a'; 128]).len(), 128);
    assert_eq!(Errno(-7).to_text("bad"), "bad (errno -7)");
    assert_eq!(Errno(110).to_text("late"), "late (errno 110)");
}

#[test]
fn blocking_and_interruption() {
    assert!(Errno(libc::EINTR).interrupted());
    assert!(!Errno(libc::EAGAIN).interrupted());
    assert!(Errno(libc::EAGAIN).would_block());
    assert!(Errno(libc::EWOULDBLOCK).would_block());
    assert!(!Errno(libc::EPIPE).would_block());
}

#[test]
fn sleeping_in_milliseconds() {
    assert_eq!(sleep_ms(1500), Timespec { secs: 1, nanos: 500_000_000 });
    assert_eq!(sleep_ms(0), Timespec { secs: 0, nanos: 0 });
    assert_eq!(sleep_ms(u64::MAX), Timespec { secs: 18_446_744_073_709_551, nanos: 615_000_000 });
}

#[test]
fn spans_of_time() {
    let a = Instant::now(Timespec { secs: 5, nanos: 900_000_000 });
    let b = Instant::now(Timespec { secs: 8, nanos: 100_000_000 });
    let d = b.duration_since(a);
    assert_eq!((d.as_secs(), d.subsec_nanos()), (2, 200_000_000));
    assert_eq!(d.as_millis(), 2200);
    assert!(a.duration_since(b).is_zero());
    assert_eq!(a.elapsed(b), d);
    assert_eq!(b - a, d);
    assert_eq!(Duration::new(2, 200_000_000), d);
    assert_eq!(Duration::new(1, 1_200_000_000), d);
    assert_eq!(epoch_secs(Timespec { secs: -3, nanos: 4 }), -3);
}

#[test]
fn spans_in_order_add_up() {
    let at = |s: i64| Instant::now(Timespec { secs: s, nanos: 1 });
    let whole = at(30).duration_since(at(10)).as_secs();
    let halves = at(30).duration_since(at(17)).as_secs() + at(17).duration_since(at(10)).as_secs();
    assert_eq!(whole, halves);
}

#[test]
fn processes_and_processors() {
    assert_eq!(proc::id(4321), 4321);
    assert_eq!(proc::available_parallelism(8), 8);
    assert_eq!(proc::available_parallelism(0), 1);
    assert_eq!(proc::available_parallelism(-1), 1);
}

#[test]
fn numbers_as_text() {
    let mut s = String::new();
    text::push_decimal(&mut s, 0);
    text::push_decimal(&mut s, u64::MAX);
    assert_eq!(s, "018446744073709551615");
    let mut t = String::new();
    text::push_signed(&mut t, i32::MIN);
    assert_eq!(t, "-2147483648");
}

#[test]
fn bytes_as_text() {
    assert_eq!(text::string_from_utf8(vec![104, 105]), Some("hi".to_owned()));
    assert_eq!(text::string_from_utf8(vec![0xC3, 0x28]), None);
    assert_eq!(text::to_owned_text(&[0xE2, 0x82, 65, 0xFF]), "\u{FFFD}A\u{FFFD}");
    assert_eq!(text::to_owned_text("gr\u{FC}n".as_bytes()), "gr\u{FC}n");
    let cut = text::replace_chunks(&[0xE2, 0x82, 65, 0xFF, 66], &[(0, 2), (1, 1), (1, 0)]);
    assert_eq!(cut, "\u{FFFD}A\u{FFFD}B");
    assert_eq!(text::replace_invalid(&[0xE2, 0x82, 65, 0xFF, 66]), cut);
}

#[test]
fn variables() {
    assert_eq!(eko::env::var(None), None);
    assert_eq!(eko::env::var(Some(vec![])), Some(String::new()));
    assert_eq!(eko::env::var(Some(vec![0xFF])), None);
    assert_eq!(eko::env::var_name("PATH"), b"PATH\0".to_vec());
    assert_eq!(eko::env::set_var("A", "b c"), (b"A\0".to_vec(), b"b c\0".to_vec()));
    let mut c = eko::env::CBytes::new();
    for b in b"abc\0def" {
        if !c.push(*b) {
            break;
        }
    }
    assert_eq!(eko::env::var_os(Some(c)), Some(b"abc".to_vec()));
    assert_eq!(eko::env::var_os(None), None);
}

#[test]
fn working_directory_and_executable() {
    assert_eq!(eko::env::current_dir(Some(b"/w\0\0\0".to_vec())), Some(b"/w".to_vec()));
    assert_eq!(eko::env::current_dir(Some(b"/w".to_vec())), None);
    assert_eq!(eko::env::current_dir(None), None);
    assert_eq!(eko::env::current_exe(3, b"/ex\0\0".to_vec()), Some(b"/ex".to_vec()));
    assert_eq!(eko::env::current_exe(0, vec![0; 4]), None);
    assert_eq!(eko::env::current_exe(-1, vec![0; 4]), None);
    let retry = eko::env::executable_path(true, -1, 5000, Vec::new());
    assert!(matches!(retry, eko::env::ExecutablePath::Retry(5000)));
    let gave_up = eko::env::executable_path(false, -1, 5000, Vec::new());
    assert!(matches!(gave_up, eko::env::ExecutablePath::Done(None)));
    match eko::env::executable_path(true, 0, 9, b"/bin/x\0".to_vec()) {
        eko::env::ExecutablePath::Done(Some(q)) => assert_eq!(q, b"/bin/x".to_vec()),
        _ => panic!("there is a path"),
    }
}

#[test]
fn temporary_files_and_search_paths() {
    assert_eq!(eko::env::temp_dir(Some(b"/scratch".to_vec())), b"/scratch".to_vec());
    assert!(eko::env::temp_dir(Some(Vec::new())).is_empty());
    assert_eq!(eko::env::temp_dir(None), b"/tmp".to_vec());
    assert_eq!(eko::env::split_paths(b":/bin::/usr/bin:"), vec![&b"/bin"[..], &b"/usr/bin"[..]]);
    assert!(eko::env::split_paths(b"").is_empty());
}

#[test]
fn command_lines() {
    let args = eko::env::args(Some(b"prog\0-x\0\0file\0".to_vec()));
    assert_eq!(args, vec![b"prog".to_vec(), b"-x".to_vec(), Vec::new(), b"file".to_vec()]);
    assert_eq!(eko::env::args(Some(b"a title".to_vec())), vec![b"a title".to_vec()]);
    assert!(eko::env::args(Some(Vec::new())).is_empty());
    assert!(eko::env::args(None).is_empty());
}

#[test]
fn lists_of_strings_read_back() {
    let mut e = eko::env::Strings::new();
    let mut ends = 0;
    for b in b"A=1\0\0B=\0" {
        if !e.push(*b) {
            ends += 1;
        }
    }
    assert_eq!(ends, 3);
    let entries = eko::env::environ(Some(e));
    assert_eq!(entries, vec![b"A=1".to_vec(), Vec::new(), b"B=".to_vec()]);
    assert!(eko::env::environ(None).is_empty());
}
