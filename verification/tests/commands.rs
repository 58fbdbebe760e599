use eko::command::child::{exit_code, forked, Child, Forked, Pipe, Ready, Signal, WaitStep, Watch};
use eko::command::setup::{ChildCall, Setup};
use eko::command::{candidates, Command, Output, OutputStep};
use eko::time::Duration;
use eko::Errno;

const NONE: Errno = Errno(0);

fn list(items: &[&str]) -> Vec<Vec<u8>> {
    items.iter().map(|s| s.as_bytes().to_vec()).collect()
}

fn child() -> Child {
    let out = Pipe::new(0, 3, 4).unwrap();
    let err = Pipe::new(0, 5, 6).unwrap();
    match forked(77, out, err) {
        Forked::Parent(c, Some(4), Some(6)) => c,
        _ => panic!("this is the parent"),
    }
}

#[test]
fn where_a_program_is_looked_for() {
    assert_eq!(candidates(b"./x", b"/bin"), list(&["./x\0"]));
    assert_eq!(candidates(b"ls", b"/bin::/usr/bin/:"), list(&["/bin/ls\0", "/usr/bin/ls\0"]));
    assert!(candidates(b"ls", b"").is_empty());
}

#[test]
fn a_plan_for_a_program() {
    let c = Command::new("cc").arg(b"-c").args(&[b"a.c", b"-o"]).env(b"LANG", b"C");
    let plan = c.spawn(Some(b"/bin".to_vec()), list(&["LANG=de", "HOME=/h"]));
    assert_eq!(plan.tries, list(&["/bin/cc\0"]));
    assert_eq!(plan.argv, list(&["cc\0", "-c\0", "a.c\0", "-o\0"]));
    assert_eq!(plan.envp, list(&["HOME=/h\0", "LANG=C\0"]));
}

#[test]
fn a_program_that_cannot_be_found_still_starts() {
    let plan = Command::new("nothing").spawn(None, Vec::new());
    assert!(plan.tries.is_empty());
    assert_eq!(plan.argv, list(&["nothing\0"]));
    let mut s = Setup::Exec { index: 0 };
    assert_eq!(s.call(0), ChildCall::Exit(127));
    s.step(-1, 0);
    assert_eq!(s.call(0), ChildCall::Exit(127));
}

#[test]
fn the_last_setting_of_a_variable_wins() {
    let c = Command::new("x").env(b"A", b"1").env(b"B", b"2").env(b"A", b"3");
    let env = c.environment(list(&["A=0", "AB=keep", "A=again", "C=c"]));
    assert_eq!(env, list(&["AB=keep\0", "C=c\0", "B=2\0", "A=3\0"]));
}

#[test]
fn a_name_does_not_match_a_longer_one() {
    let c = Command::new("x").env(b"CARGO", b"/c");
    let env = c.environment(list(&["CARGO_TARGET_DIR=/t", "CARGO=/old"]));
    assert_eq!(env, list(&["CARGO_TARGET_DIR=/t\0", "CARGO=/c\0"]));
}

/// Runs a child's setup against a table of descriptors and returns the table.
fn set_up(out: i32, err: i32, mut table: Vec<Option<char>>) -> Vec<Option<char>> {
    let mut s = Setup::new(out, err);
    loop {
        let returned: i32 = match s.call(1) {
            ChildCall::SetGroup => 0,
            ChildCall::Lift(fd) => {
                let to = (3..).find(|k| *k >= table.len() || table[*k].is_none()).unwrap();
                if to >= table.len() {
                    table.resize(to + 1, None);
                }
                table[to] = table[fd as usize];
                to as i32
            }
            ChildCall::OpenNull => {
                let to = (0..).find(|k| *k >= table.len() || table[*k].is_none()).unwrap();
                if to >= table.len() {
                    table.resize(to + 1, None);
                }
                table[to] = Some('0');
                to as i32
            }
            ChildCall::Dup2(from, to) => {
                table[to as usize] = table[from as usize];
                to
            }
            ChildCall::Close(fd) => {
                table[fd as usize] = None;
                0
            }
            ChildCall::Exec(_) => return table,
            ChildCall::Exit(_) => panic!("nothing failed"),
        };
        s.step(returned, 1);
    }
}

#[test]
fn the_pipes_end_up_on_the_standard_descriptors() {
    let plain = set_up(4, 6, vec![Some('i'), Some('o'), Some('e'), Some('r'), Some('O'), Some('r'), Some('E')]);
    assert_eq!(plain[..3], [Some('0'), Some('O'), Some('E')]);
    let crossed = set_up(2, 1, vec![Some('r'), Some('E'), Some('O'), Some('r')]);
    assert_eq!(crossed[..3], [Some('0'), Some('O'), Some('E')]);
    let in_place = set_up(1, 3, vec![Some('r'), Some('O'), Some('r'), Some('E')]);
    assert_eq!(in_place[..3], [Some('0'), Some('O'), Some('E')]);
}

#[test]
fn a_failure_before_the_program_exits() {
    let mut s = Setup::new(1, 5);
    s.step(0, 1);
    assert_eq!(s.call(1), ChildCall::Lift(1));
    s.step(-1, 1);
    assert_eq!(s.call(1), ChildCall::Exit(127));
    let mut n = Setup::Null { out: 7, err: 8 };
    n.step(-1, 1);
    assert_eq!(n.call(1), ChildCall::Exit(127));
    let mut d = Setup::Stdout { out: 7, err: 8 };
    d.step(-1, 1);
    assert_eq!(d.call(1), ChildCall::Exit(127));
}

#[test]
fn candidates_are_tried_in_turn() {
    let mut s = Setup::Stderr { err: 8 };
    s.step(2, 2);
    assert_eq!(s.call(2), ChildCall::Exec(0));
    s.step(-1, 2);
    assert_eq!(s.call(2), ChildCall::Exec(1));
    s.step(-1, 2);
    assert_eq!(s.call(2), ChildCall::Exit(127));
}

#[test]
fn forks() {
    assert!(Pipe::new(-1, 0, 0).is_none());
    let pipe = |r: i32, w: i32| Pipe::new(0, r, w).unwrap();
    assert!(matches!(forked(-1, pipe(3, 4), pipe(5, 6)), Forked::Failed));
    match forked(0, pipe(3, 4), pipe(5, 6)) {
        Forked::Child(s) => assert_eq!(s, Setup::new(4, 6)),
        _ => panic!("this is the child"),
    }
    let mut once = pipe(3, 4);
    assert_eq!(once.close_write(), Some(4));
    assert_eq!(once.close_write(), None);
    assert_eq!(once.read_end(), 3);
}

#[test]
fn both_pipes_are_watched_until_they_end() {
    let mut c = child();
    assert_eq!(c.read_ready(None), Some(Watch { out: Some(3), err: Some(5), timeout: -1 }));
    assert_eq!(c.polled(1, NONE, true, false), Ready { out: true, err: false });
    assert!(c.take_out(3, NONE, b"abc"));
    assert!(c.take_out(-1, Errno(libc::EINTR), b""));
    assert!(!c.take_out(-1, Errno(libc::EAGAIN), b""));
    assert_eq!(c.stdout_so_far(), b"abc");
    assert!(!c.take_out(0, NONE, b""));
    assert_eq!(c.read_ready(None), Some(Watch { out: None, err: Some(5), timeout: -1 }));
    assert_eq!(c.polled(1, NONE, true, true), Ready { out: false, err: true });
    assert!(c.take_err(1, NONE, b"e"));
    assert!(!c.take_err(-1, Errno(libc::EIO), b""));
    assert!(c.drained());
    assert_eq!(c.read_ready(None), None);
    let o = c.into_output(3);
    assert_eq!((o.code, o.stdout.as_slice(), o.stderr.as_slice()), (3, &b"abc"[..], &b"e"[..]));
    assert!(!o.success());
    assert!(Output { code: 0, stdout: Vec::new(), stderr: Vec::new() }.success());
}

#[test]
fn poll_timeouts() {
    let c = child();
    let ms = |t: Duration| c.read_ready(Some(t)).unwrap().timeout;
    assert_eq!(ms(Duration::new(0, 0)), 0);
    assert_eq!(ms(Duration::new(0, 1)), 1);
    assert_eq!(ms(Duration::new(0, 1_000_000)), 1);
    assert_eq!(ms(Duration::new(0, 1_500_000)), 2);
    assert_eq!(ms(Duration::new(2, 0)), 2000);
    assert_eq!(ms(Duration::new(u64::MAX, 0)), i32::MAX);
}

#[test]
fn polls_that_fail() {
    let mut c = child();
    assert_eq!(c.polled(0, NONE, true, true), Ready { out: false, err: false });
    assert_eq!(c.polled(-1, Errno(libc::EINTR), true, true), Ready { out: false, err: false });
    assert!(!c.drained());
    c.polled(-1, Errno(libc::EINVAL), false, false);
    assert!(c.drained());
}

#[test]
fn the_exit_code_is_kept() {
    let mut c = child();
    assert_eq!(c.waits_for(), Err(77));
    assert_eq!(c.try_wait(0, NONE, 0), WaitStep::Running);
    assert_eq!(c.wait(-1, Errno(libc::EINTR), 0), None);
    assert_eq!(c.wait(77, NONE, 5 << 8), Some(5));
    assert_eq!(c.try_wait(-1, Errno(libc::ECHILD), 0), WaitStep::Exited(5));
    assert_eq!(c.waits_for(), Ok(5));
    let mut gone = child();
    assert_eq!(gone.wait(-1, Errno(libc::ECHILD), 0), Some(-1));
    assert_eq!(gone.wait(77, NONE, 0), Some(-1));
}

#[test]
fn wait_statuses() {
    assert_eq!(exit_code(0), 0);
    assert_eq!(exit_code(255 << 8), 255);
    assert_eq!(exit_code(libc::SIGKILL), 137);
    assert_eq!(exit_code(libc::SIGSEGV | 0x80), 139);
}

#[test]
fn signals_reach_the_group() {
    let c = child();
    assert_eq!(
        c.terminate(),
        [Signal { pid: -77, signal: libc::SIGTERM }, Signal { pid: 77, signal: libc::SIGTERM }],
    );
    assert_eq!(c.kill()[0], Signal { pid: -77, signal: libc::SIGKILL });
}

#[test]
fn running_to_completion() {
    let mut c = child();
    assert_eq!(Command::output(&c), OutputStep::Read);
    c.take_out(0, NONE, b"");
    c.take_err(0, NONE, b"");
    assert_eq!(Command::output(&c), OutputStep::Wait);
    c.wait(77, NONE, 0);
    assert_eq!(Command::output(&c), OutputStep::Collect(0));
}
