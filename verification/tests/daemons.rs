use eko::channel::{sync_channel, Channel, RecvError, RecvStep, SendError, SendStep, Wake};
use eko::daemonize::{
    daemonize, fork, format_pid, Answer, Call, DaemonizeError, Daemonize, Forked, Started,
};
use eko::lines::LineStep;
use eko::socket::{
    address, Accepted, Arrived, Listener, Nonblocking, Opening, SocketCall, Stream, StreamRead,
};
use eko::thread::local::KeyChoice;
use eko::thread::once::{Claim, ONCE_BUSY, ONCE_EMPTY, ONCE_READY};
use eko::thread::start::{Answer as StartAnswer, StartCall};
use eko::thread::{
    current_id, spawn, spawn_detached, try_lock, Builder, Condvar, JoinHandle, LazyLock, LocalKey,
    Once, OnceLock, Scope, ScopedKey, Start, ThreadLocal,
};
use eko::Errno;

const NONE: Errno = Errno(0);

fn answer(returned: i32) -> Answer {
    Answer { returned, errno: Errno(11), read_fd: 3, write_fd: 4 }
}

fn after(pid_file: bool, returned: &[i32]) -> Daemonize {
    let mut d = daemonize(pid_file);
    for r in returned {
        d.step(answer(*r));
    }
    d
}

#[test]
fn the_steps_into_the_background() {
    let mut d = daemonize(true);
    let mut calls = Vec::new();
    for r in [0, 0, 0, 1, 0, 0, 0, 5, 0, 0, 3, 6, 0, 1, 2, 0] {
        calls.push(d.call());
        d.step(answer(r));
    }
    assert_eq!(
        calls,
        vec![
            Call::Pipe,
            Call::Fork,
            Call::Close(3),
            Call::SetSid,
            Call::Fork,
            Call::ChangeToRoot,
            Call::SetMask(0o027),
            Call::OpenPidFile(libc::O_WRONLY | libc::O_CREAT, 0o644),
            Call::Lock(5),
            Call::Truncate(5),
            Call::WritePid(5),
            Call::OpenNull(libc::O_RDWR),
            Call::Dup2(6, 0),
            Call::Dup2(6, 1),
            Call::Dup2(6, 2),
            Call::Close(6),
        ],
    );
    assert_eq!(d.call(), Call::Serve(4));
    match d.started() {
        Some(Started::Daemon(ready)) => assert_eq!(ready.signal(), (4, 1)),
        _ => panic!("this is the daemon"),
    }
}

#[test]
fn the_parent_reports_what_it_read() {
    let mut d = after(false, &[0, 99]);
    assert_eq!(d.call(), Call::Close(4));
    d.step(answer(0));
    assert_eq!(d.call(), Call::ReadByte(3));
    let mut failed = d;
    d.step(answer(1));
    assert_eq!(d.call(), Call::Close(3));
    d.step(answer(0));
    assert_eq!(d.call(), Call::Exit(0));
    failed.step(answer(0));
    failed.step(answer(0));
    assert_eq!(failed.call(), Call::Exit(1));
}

#[test]
fn the_second_parent_exits() {
    assert_eq!(after(false, &[0, 0, 0, 1, 42]).call(), Call::Exit(0));
    assert_eq!(after(false, &[0, 0, 0, 1, 0, 0, 0]).call(), Call::OpenNull(libc::O_RDWR));
}

#[test]
fn a_standard_descriptor_is_not_closed_again() {
    assert_eq!(after(false, &[0, 0, 0, 1, 0, 0, 0, 1, 0, 1, 2]).call(), Call::Serve(4));
}

#[test]
fn each_failure_of_a_daemon() {
    let e = Errno(11);
    let fails = |pid: bool, r: &[i32]| match after(pid, r).call() {
        Call::Fail(error) => error,
        _ => panic!("it failed"),
    };
    assert_eq!(fails(false, &[-1]), DaemonizeError::Pipe(e));
    assert_eq!(fails(false, &[0, -1]), DaemonizeError::Fork(e));
    assert_eq!(fails(false, &[0, 0, 0, -1]), DaemonizeError::SetSid(e));
    assert_eq!(fails(false, &[0, 0, 0, 1, -1]), DaemonizeError::Fork(e));
    assert_eq!(fails(false, &[0, 0, 0, 1, 0, -1]), DaemonizeError::Chdir(e));
    assert_eq!(fails(true, &[0, 0, 0, 1, 0, 0, 0, -1]), DaemonizeError::PidFile(e));
    assert_eq!(after(true, &[0, 0, 0, 1, 0, 0, 0, 5, -1]).call(), Call::Close(5));
    assert_eq!(fails(true, &[0, 0, 0, 1, 0, 0, 0, 5, -1, 0]), DaemonizeError::PidFileLocked);
    let mut refused = after(true, &[0, 0, 0, 1, 0, 0, 0, 5]);
    refused.step(Answer { errno: Errno(37), ..answer(-1) });
    assert_eq!(refused.call(), Call::Close(5));
    refused.step(answer(0));
    assert_eq!(refused.call(), Call::Fail(DaemonizeError::PidFile(Errno(37))));
    assert_eq!(fails(true, &[0, 0, 0, 1, 0, 0, 0, 5, 0, -1]), DaemonizeError::PidFile(e));
    assert_eq!(fails(true, &[0, 0, 0, 1, 0, 0, 0, 5, 0, 0, -2]), DaemonizeError::PidFile(e));
    assert_eq!(fails(false, &[0, 0, 0, 1, 0, 0, 0, -1]), DaemonizeError::DevNull(e));
    assert_eq!(fails(false, &[0, 0, 0, 1, 0, 0, 0, 6, -1]), DaemonizeError::DevNull(e));
    assert!(after(false, &[-1]).started().is_none());
}

#[test]
fn failures_as_text() {
    let e = Errno(11);
    assert_eq!(DaemonizeError::Pipe(e).to_text("x"), "could not open the readiness pipe: x");
    assert_eq!(DaemonizeError::Fork(e).to_text("x"), "could not fork: x");
    assert_eq!(DaemonizeError::SetSid(e).to_text("x"), "could not start a new session: x");
    assert_eq!(DaemonizeError::Chdir(e).to_text("x"), "could not change to /: x");
    assert_eq!(DaemonizeError::DevNull(e).to_text("x"), "could not redirect to /dev/null: x");
    assert_eq!(DaemonizeError::PidFile(e).to_text("x"), "could not write the pid file: x");
    assert_eq!(DaemonizeError::PidFileLocked.to_text("x"), "another server holds the pid file; stop it first");
    assert_eq!(fork(-1, e), Err(DaemonizeError::Fork(e)));
    assert_eq!(fork(0, e), Ok(Forked::Child));
    assert_eq!(fork(9, e), Ok(Forked::Parent));
}

#[test]
fn process_numbers_as_digits() {
    for (pid, digits) in [(0, "0"), (7, "7"), (120, "120"), (i32::MAX, "2147483647"), (-4, "0")] {
        let mut buf = [b'x'; 24];
        let start = format_pid(pid, &mut buf);
        assert_eq!(&buf[start..], digits.as_bytes());
        assert!(buf[..start].iter().all(|b| *b == b'x'));
    }
}

#[test]
fn socket_addresses() {
    let mut sun = [0u8; 8];
    assert_eq!(address(b"/a/b", &mut sun), Ok(()));
    assert_eq!(&sun, b"/a/b\0\0\0\0");
    assert_eq!(address(b"1234567", &mut [0u8; 8]), Ok(()));
    let mut kept = [9u8; 8];
    assert_eq!(address(b"12345678", &mut kept), Err(Errno(libc::ENAMETOOLONG)));
    assert_eq!(kept, [9u8; 8]);
}

#[test]
fn waiting_or_not() {
    let mut n = Nonblocking::GetFlags;
    n.step(true, 0o2, NONE);
    assert_eq!(n, Nonblocking::SetFlags(0o2 | libc::O_NONBLOCK));
    n.step(true, 0, NONE);
    assert_eq!(n, Nonblocking::Done);
    let mut off = Nonblocking::GetFlags;
    off.step(false, 0o2 | libc::O_NONBLOCK, NONE);
    assert_eq!(off, Nonblocking::SetFlags(0o2));
    off.step(false, -1, Errno(9));
    assert_eq!(off, Nonblocking::Failed(Errno(9)));
}

fn run(mut o: Opening, returned: &[i32]) -> Opening {
    for r in returned {
        o.step(*r, Errno(98));
    }
    o
}

#[test]
fn listening() {
    let o = Listener::bind(b"/run/s", 108, 16);
    assert_eq!(o.call(), SocketCall::Socket);
    assert_eq!(run(o, &[5]).call(), SocketCall::Bind(5));
    assert_eq!(run(o, &[5, 0]).call(), SocketCall::Listen(5, 16));
    let ready = run(o, &[5, 0, 0]);
    let l = Listener::bound(&ready).unwrap();
    assert_eq!(l.raw(), 5);
    assert_eq!(l.set_nonblocking(), Nonblocking::GetFlags);
    assert!(Listener::bound(&o).is_none());
    assert_eq!(run(o, &[-1]).call(), SocketCall::Fail(Errno(98), None));
    assert_eq!(run(o, &[5, -1]).call(), SocketCall::Fail(Errno(98), Some(5)));
    assert_eq!(run(o, &[5, 0, -1]).call(), SocketCall::Fail(Errno(98), Some(5)));
    let long = Listener::bind(&[b'a'; 108], 108, 16);
    assert_eq!(run(long, &[5]).call(), SocketCall::Fail(Errno(libc::ENAMETOOLONG), Some(5)));
    assert_eq!(run(long, &[-1]).call(), SocketCall::Fail(Errno(98), None));
    assert!(matches!(l.accept(-1, Errno(libc::EINTR)), Accepted::Again));
    assert!(matches!(l.accept(-1, Errno(libc::EAGAIN)), Accepted::Failed(Errno(libc::EAGAIN))));
    match l.accept(9, NONE) {
        Accepted::Stream(s) => assert_eq!(s.raw(), 9),
        _ => panic!("there is a connection"),
    }
}

fn connection() -> Stream {
    Stream::connected(&run(Stream::connect(b"/run/s", 108), &[7, 0])).unwrap()
}

#[test]
fn connections() {
    let o = Stream::connect(b"/run/s", 108);
    assert_eq!(run(o, &[7]).call(), SocketCall::Connect(7));
    assert_eq!(run(o, &[7, -1]).call(), SocketCall::Fail(Errno(98), Some(7)));
    let s = connection();
    assert_eq!(s.raw(), 7);
    assert_eq!(s.duplicate(8, NONE).unwrap().raw(), 8);
    assert_eq!(s.duplicate(-1, Errno(24)), Err(Errno(24)));
    assert_eq!(s.read(-1, Errno(libc::EINTR)), StreamRead::Again);
    assert_eq!(s.read(0, NONE), StreamRead::Got(0));
    assert_eq!(s.read(-1, Errno(104)), StreamRead::Failed(Errno(104)));
    let mut w = s.write_all(b"reply");
    assert_eq!(w.step(2, NONE), Ok(()));
    assert_eq!(w.step(-1, Errno(libc::EINTR)), Ok(()));
    assert_eq!(w.rest(), b"ply");
    assert_eq!(w.step(0, NONE), Err(Errno(libc::EPIPE)));
    assert_eq!(w.step(-1, Errno(104)), Err(Errno(104)));
    assert_eq!(w.step(3, NONE), Ok(()));
    assert!(w.rest().is_empty());
}

#[test]
fn lines_of_a_connection() {
    let mut l = connection().lines();
    assert!(matches!(l.next_line(), LineStep::Read));
    assert!(matches!(l.supply(3, NONE, b"pin"), Arrived::More));
    assert!(matches!(l.next_line(), LineStep::Read));
    assert!(matches!(l.supply(-1, Errno(libc::EINTR), b""), Arrived::Again));
    assert!(matches!(l.supply(8, NONE, b"g\nx\ntail"), Arrived::More));
    assert!(matches!(l.next_line(), LineStep::Line(s) if s == "ping"));
    assert!(matches!(l.next_line(), LineStep::Line(s) if s == "x"));
    assert!(matches!(l.next_line(), LineStep::Read));
    assert!(matches!(l.supply(0, NONE, b""), Arrived::Ended(Some(s)) if s == "tail"));
    assert!(matches!(l.supply(0, NONE, b""), Arrived::Ended(None)));
    assert_eq!(l.stream().raw(), 7);
}

#[test]
fn a_failed_read_loses_half_a_line() {
    let mut l = connection().lines();
    l.supply(4, NONE, b"half");
    assert!(matches!(l.next_line(), LineStep::Read));
    assert!(matches!(l.supply(-1, Errno(104), b""), Arrived::Failed(Errno(104))));
    l.supply(5, NONE, b"next\n");
    assert!(matches!(l.next_line(), LineStep::Line(s) if s == "next"));
}

#[test]
fn a_channel_is_a_bounded_queue() {
    let mut c: Channel<u8> = sync_channel(2);
    assert!(matches!(c.recv(), (RecvStep::Wait, Wake::Nobody)));
    assert!(matches!(c.send(1), (SendStep::Sent, Wake::Receiver)));
    assert!(matches!(c.send(2), (SendStep::Sent, Wake::Receiver)));
    assert!(matches!(c.send(3), (SendStep::Wait(3), Wake::Nobody)));
    assert!(matches!(c.recv(), (RecvStep::Got(1), Wake::OneSender)));
    assert!(matches!(c.send(3), (SendStep::Sent, _)));
    assert!(matches!(c.try_recv(), (Some(2), Wake::OneSender)));
    assert!(matches!(c.try_recv(), (Some(3), _)));
    assert!(matches!(c.try_recv(), (None, Wake::Nobody)));
}

#[test]
fn the_other_end_is_gone() {
    let mut c: Channel<u8> = sync_channel(1);
    c.add_sender();
    assert_eq!(c.drop_sender(), Wake::Nobody);
    c.send(5);
    assert_eq!(c.drop_sender(), Wake::Receiver);
    assert!(matches!(c.recv(), (RecvStep::Got(5), _)));
    assert!(matches!(c.recv(), (RecvStep::Gone(RecvError), Wake::Nobody)));
    let mut d: Channel<u8> = sync_channel(1);
    assert_eq!(d.drop_receiver(), Wake::EverySender);
    assert!(matches!(d.send(6), (SendStep::Gone(SendError(6)), Wake::Nobody)));
}

fn drive(mut s: Start, init: i32, create: i32) -> (Vec<StartCall>, Start) {
    let mut calls = Vec::new();
    while s.outcome().is_none() {
        let call = s.call();
        calls.push(call);
        let returned = match call {
            StartCall::InitAttributes => init,
            StartCall::Create | StartCall::CreatePlain => create,
            _ => 0,
        };
        s.step(StartAnswer { returned, errno: Errno(12), thread: 5 });
    }
    (calls, s)
}

#[test]
fn starting_a_detached_thread() {
    let (calls, s) = drive(spawn_detached(4096), 0, 0);
    assert_eq!(
        calls,
        vec![
            StartCall::InitAttributes,
            StartCall::SetStack(4096),
            StartCall::SetDetached,
            StartCall::Create,
            StartCall::DestroyAttributes,
        ],
    );
    assert_eq!(s.outcome(), Some(Ok(5)));
    let (calls, s) = drive(spawn_detached(4096), 1, 0);
    assert_eq!(calls, vec![StartCall::InitAttributes, StartCall::Free]);
    assert_eq!(s.outcome(), Some(Err(Errno(12))));
    let (calls, s) = drive(spawn_detached(4096), 0, 11);
    assert_eq!(calls[3..], [StartCall::Create, StartCall::DestroyAttributes, StartCall::Free]);
    assert_eq!(s.outcome(), Some(Err(Errno(11))));
}

#[test]
fn starting_a_thread_to_join() {
    let b = Builder::new().stack_size(1 << 20).name("worker".to_owned());
    let (calls, s) = drive(b.spawn(), 7, 0);
    assert_eq!(calls[1], StartCall::SetStack(1 << 20));
    assert_eq!(calls[2], StartCall::SetName);
    assert_eq!(calls[3], StartCall::Create);
    assert_eq!(s.own_name(16), Some(b"worker\0".to_vec()));
    assert_eq!(s.own_name(5), Some(b"work\0".to_vec()));
    assert_eq!(spawn().own_name(16), None);
    let h = JoinHandle::new(&s).unwrap().unwrap();
    assert_eq!(h.raw(), 5);
    assert_eq!(h.join(0, Some("done")), Ok("done"));
    let (calls, s) = drive(spawn(), 0, 0);
    assert_eq!(calls, vec![StartCall::InitAttributes, StartCall::Create, StartCall::DestroyAttributes]);
    assert_eq!(JoinHandle::new(&s).unwrap().unwrap().join::<u8>(3, None), Err(Errno(3)));
    assert_eq!(JoinHandle::new(&s).unwrap().unwrap().join::<u8>(0, None), Err(Errno(libc::EINVAL)));
    let (_, failed) = drive(Builder::default().spawn(), 0, 11);
    assert_eq!(JoinHandle::new(&failed), Some(Err(Errno(11))));
    assert_eq!(JoinHandle::new(&spawn()), None);
    assert_eq!(current_id(99).as_u64(), 99);
    assert!(try_lock(0) && !try_lock(16));
}

#[test]
fn a_scope_joins_what_it_started() {
    let mut scope = Scope::new();
    let (calls, s) = drive(scope.spawn(), 0, 0);
    assert_eq!(calls, vec![StartCall::CreatePlain]);
    scope.add_started(&s);
    let (calls, failed) = drive(scope.spawn(), 0, 11);
    assert_eq!(calls, vec![StartCall::CreatePlain, StartCall::Free]);
    scope.add_started(&failed);
    assert_eq!(scope.to_join(), vec![5]);
}

#[test]
fn something_is_done_once() {
    let runs = std::cell::Cell::new(0);
    let mut o = Once::new();
    o.call_once(|| runs.set(runs.get() + 1));
    o.call_once(|| runs.set(runs.get() + 1));
    assert_eq!(runs.get(), 1);
    assert_eq!(Once::default(), Once::new());
}

#[test]
fn waiters_are_counted() {
    let mut c = Condvar::new();
    assert!(!c.notify_one());
    c.wait();
    c.wait();
    assert_eq!((c.notify_one(), c.notify_all()), (true, 2));
    c.woken();
    assert_eq!(c.notify_all(), 1);
}

#[test]
fn a_value_is_stored_once() {
    let mut o: OnceLock<u8> = OnceLock::new();
    assert_eq!(o.get(), None);
    assert_eq!(o.claim(), Claim::Mine);
    assert_eq!(o.claim(), Claim::Busy);
    assert_eq!(o.set(1), Err(1));
    o.publish(7);
    assert_eq!(o.claim(), Claim::Ready);
    assert_eq!(o.get_or_init(|| panic!("it is there")).ok(), Some(&7));
    assert_eq!(o.set(8), Err(8));
    assert_eq!(o.clone().get(), Some(&7));
    assert_eq!(OnceLock::<u8>::default().clone().get(), None);
    let mut fresh = OnceLock::new();
    assert_eq!(fresh.get_or_init(|| 3).ok(), Some(&3));
    assert_eq!(fresh.get(), Some(&3));
    let mut busy = OnceLock::new();
    assert_eq!(busy.claim(), Claim::Mine);
    let waits = busy.get_or_init(|| 1).err().unwrap();
    busy.publish(9);
    assert_eq!(busy.get_or_init(waits).ok(), Some(&9));
    assert_eq!(eko::thread::once::answer(ONCE_EMPTY), Claim::Mine);
    assert_eq!(eko::thread::once::answer(ONCE_BUSY), Claim::Busy);
    assert_eq!(eko::thread::once::answer(ONCE_READY), Claim::Ready);
    let mut set = OnceLock::new();
    assert_eq!(set.set("v"), Ok(()));
    assert_eq!(set.get(), Some(&"v"));
}

#[test]
fn a_value_is_computed_once() {
    let runs = std::cell::Cell::new(0);
    let mut l = LazyLock::new(|| {
        runs.set(runs.get() + 1);
        41 + runs.get()
    });
    assert_eq!(l.get(), None);
    assert_eq!(*LazyLock::force(&mut l), 42);
    assert_eq!(*LazyLock::force(&mut l), 42);
    assert_eq!(l.get(), Some(&42));
    assert_eq!(runs.get(), 1);
}

#[test]
fn threads_agree_on_a_key() {
    let mut t = ThreadLocal::new();
    assert_eq!(t.key(), None);
    assert_eq!(t.offer(11, 0), None);
    assert_eq!(t.offer(0, 0), Some(KeyChoice { key: 0, free_own: false }));
    assert_eq!(t.key(), Some(0));
    assert_eq!(t.offer(0, 5), Some(KeyChoice { key: 0, free_own: true }));
}

#[test]
fn a_threads_own_value() {
    let made = std::cell::Cell::new(0);
    let mut k = LocalKey::new(|| {
        made.set(made.get() + 1);
        10
    });
    assert_eq!(k.with(|v| *v + 1), 11);
    assert_eq!(k.replace(20), 10);
    assert_eq!(k.get(), 20);
    k.set(5);
    assert_eq!(k.with_borrow(|v| *v), 5);
    k.with_mut(|v| *v += 1);
    k.with_borrow_mut(|v| *v *= 2);
    assert_eq!(k.take(), 12);
    assert_eq!(k.get(), 0);
    assert_eq!(made.get(), 1);
}

#[test]
fn an_installed_value_is_put_back() {
    let (outer, inner) = (1, 2);
    let mut s = ScopedKey::new();
    assert!(!s.is_set());
    let first = s.install(&outer);
    let second = s.install(&inner);
    assert_eq!(*s.with(), 2);
    s.put_back(second);
    assert_eq!(*s.with(), 1);
    s.put_back(first);
    assert!(!s.is_set());
    let seen = s.set(&outer, |k| (k.set(&inner, |n| *n.with()), *k.with()));
    assert_eq!(seen, (2, 1));
    assert!(!s.is_set());
}
