//! The process: its id, and how many threads the machine will usefully run.

use vstd::prelude::*;

verus! {

/// This process's id, from what `getpid` returned.
pub fn id(pid: i32) -> (r: u32)
    ensures
        r == pid as u32,
        pid >= 0 ==> r == pid,
{
    pid as u32
}

/// How many threads this machine will usefully run at once, from what `sysconf` said of the
/// processors online.
///
/// One when the question failed, which is the answer that cannot be wrong.
pub fn available_parallelism(online: i64) -> (r: usize)
    requires
        online <= usize::MAX,
    ensures
        r >= 1,
        r == (if online < 1 {
            1
        } else {
            online as int
        }),
{
    if online < 1 {
        1
    } else {
        online as usize
    }
}

} // verus!
