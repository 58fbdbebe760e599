//! Names in the filesystem: making them, listing them, and removing them.
//!
//! These are about the directory rather than the contents: [`crate::file`] opens and reads, this
//! makes, lists and unmakes.
//!
//! One of them is dangerous and says so. [`remove_dir_all`] is the only thing here that can
//! destroy something the caller did not name, and the property that stops it is `lstat` rather
//! than `stat`.

use vstd::prelude::*;
use vstd::slice::slice_subrange;

use crate::bytes;
use crate::checked;
use crate::file;
use crate::file::whole;
use crate::file::{CopyFile, Error, Listing, MakeDirs};
use crate::path;
use crate::path::{Path, PathBuf};
use crate::sys;
use crate::Errno;

pub mod remove;

pub use crate::fs::remove::remove_dir_all;

verus! {

/// Whether a directory was made. One that is already there is a success.
pub fn mkdir(returned: i32, errno: Errno) -> (r: Result<(), Errno>)
    ensures
        r == (if returned == 0 || errno.0 == sys::EEXIST {
            Ok::<(), Errno>(())
        } else {
            Err::<(), Errno>(errno)
        }),
{
    if returned == 0 {
        return Ok(());
    }
    if errno.0 == sys::errnos().eexist {
        Ok(())
    } else {
        Err(errno)
    }
}

/// Whether a name exists at all, from what `access` returned.
pub fn name_exists(returned: i32, errno: Errno) -> (r: bool)
    ensures
        r == (returned != -1),
{
    checked(returned, errno).is_ok()
}

/// Whether an empty directory was removed.
///
/// Empty, because `rmdir(2)` is. [`remove_dir_all`] is the recursive one, and keeping them apart
/// means a caller that meant to delete one directory cannot delete a tree by typo.
pub fn rmdir(returned: i32, errno: Errno) -> (r: Result<(), Errno>)
    ensures
        r == (if returned == -1 {
            Err::<(), Errno>(errno)
        } else {
            Ok::<(), Errno>(())
        }),
{
    match checked(returned, errno) {
        Ok(_) => Ok(()),
        Err(e) => Err(e),
    }
}

/// Every name directly inside a directory, as full paths, without `.` and `..`, being listed.
///
/// Full paths rather than file names, because every caller goes on to ask about or open what it
/// found, and rebuilding the path at each call site is where a join goes wrong.
///
/// The order is the filesystem's, which is to say arbitrary. A caller that needs a stable order
/// sorts.
pub struct ReadDir {
    listing: Listing,
}

/// Start listing a directory, if it could be opened.
pub fn read_dir(dir: Path<'_>, opened: bool, errno: Errno) -> (r: Result<ReadDir, Error>)
    ensures
        if opened {
            r matches Ok(l) && l.dir() == dir@ && l.paths() == file::listed(dir@, seq![])
                && l.paths().len() == 0
        } else {
            r matches Err(e) && e@ == file::failure(errno, "opendir"@)
        },
{
    match Listing::start(dir, opened, errno) {
        Ok(listing) => Ok(ReadDir { listing }),
        Err(e) => Err(e),
    }
}

impl ReadDir {
    /// The directory.
    pub closed spec fn dir(&self) -> Seq<u8> {
        self.listing.dir()
    }

    /// The paths so far.
    pub closed spec fn paths(&self) -> Seq<Seq<u8>> {
        self.listing.paths()
    }

    /// Take one entry, whose name ends at the first NUL of its field.
    pub fn entry(&mut self, d_name: &[u8])
        ensures
            final(self).dir() == old(self).dir(),
            final(self).paths() == (if file::dots(bytes::until(d_name@, 0)) {
                old(self).paths()
            } else {
                old(self).paths().push(path::join_of(old(self).dir(), bytes::until(d_name@, 0)))
            }),
            ({
                let name = bytes::until(d_name@, 0);
                if name == seq![path::DOT] || name == seq![path::DOT, path::DOT] {
                    final(self).paths() == old(self).paths()
                } else {
                    final(self).paths() == old(self).paths().push(
                        path::join_of(old(self).dir(), name),
                    )
                }
            }),
    {
        proof {
            bytes::lemma_first_of(d_name@, 0);
            file::only_the_dot_names_are_left_out(bytes::until(d_name@, 0));
        }
        let end: usize = match bytes::position(d_name, 0) {
            Some(i) => i,
            None => d_name.len(),
        };
        let name = slice_subrange(d_name, 0, end);
        assert(name@ =~= bytes::until(d_name@, 0));
        self.listing.entry(name);
    }

    /// The listing, once there are no more entries.
    ///
    /// End of directory and failure are reported the same way, and the difference is whether
    /// `errno` was set after it had been cleared.
    pub fn end(self, errno: Errno) -> (r: Result<Vec<PathBuf>, Error>)
        ensures
            match r {
                Ok(v) => errno.0 == 0 && file::path_views(v@) == self.paths(),
                Err(e) => errno.0 != 0 && e@ == file::failure(errno, "readdir"@),
            },
    {
        if errno.0 != 0 {
            return Err(Error::from_errno(errno, "readdir"));
        }
        Ok(self.listing.into_paths())
    }
}

/// Start making a directory and every missing parent, succeeding if it is already there.
///
/// Down rather than up, so the first failure that is not "it is already there" is reported against
/// the component that actually failed.
pub fn create_dir_all(p: Path<'_>) -> (r: MakeDirs)
    ensures
        r@ == (file::Making { way: file::way_to(p@), there: 0, failed: None }),
{
    file::create_dir_all(p)
}

/// Start copying a file's contents to a new name.
///
/// The destination is truncated if it exists. Permissions are not copied: carrying a mode across is
/// how a copy of a source file comes out executable.
pub fn copy(from: Path<'_>, to: Path<'_>) -> (r: CopyFile)
    ensures
        r@ == whole::Copying::Read(whole::Reading::Open(from@)),
        r.destination() == to@,
{
    CopyFile::new(from, to)
}

} // verus!
