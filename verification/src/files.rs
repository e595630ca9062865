//! The files of a cycle: their names, and the checks on what was fetched
//! and unpacked before anything is written.

use vstd::prelude::*;
use vstd::string::StringExecFns;

verus! {

/// The size of the pieces in which a fetched file is copied.
pub const COPY_CHUNK_BYTES: usize = 1024;

/// The name of the archive as it is downloaded.
pub fn downloaded_archive_name() -> (name: &'static str)
    ensures
        name@ == "utf_ken_all.zip"@,
{
    "utf_ken_all.zip"
}

/// The name of the archive as it is handed to the unpacker.
pub fn archive_name() -> (name: &'static str)
    ensures
        name@ == "utf_ken_all_optimize.zip"@,
{
    "utf_ken_all_optimize.zip"
}

/// The name of the extracted feed.
pub fn feed_name() -> (name: &'static str)
    ensures
        name@ == "utf_ken_all.csv"@,
{
    "utf_ken_all.csv"
}

/// The name of the prefecture resource.
pub fn prefecture_resource_name() -> (name: &'static str)
    ensures
        name@ == "pref.json"@,
{
    "pref.json"
}

/// The path of a file in a directory: the two joined by a slash.
pub fn path_in(directory: &str, name: &str) -> (path: String)
    ensures
        path@ == directory@ + seq!['/'] + name@,
{
    proof {
        reveal_strlit("/");
        assert("/"@ =~= seq!['/']);
    }
    let mut path = String::from_str(directory);
    path.append("/");
    path.append(name);
    path
}

/// Why a fetch failed.
#[derive(Debug, Clone, Copy, PartialEq, Eq, Structural)]
pub enum FetchError {
    /// The source answered with a status that is no success.
    Status { code: u16 },
    /// The body could not be read to its end.
    Interrupted,
}

/// Why the archive could not be unpacked.
#[derive(Debug, Clone, Copy, PartialEq, Eq, Structural)]
pub enum UnpackError {
    /// The archive has no entries.
    EmptyArchive,
    /// The archive could not be read.
    Corrupt,
}

/// Whether the body of an answer is written to disk: it is for a status
/// from 200 to 299, and for no other.
pub fn check_fetch_status(code: u16) -> (checked: Result<(), FetchError>)
    ensures
        checked is Ok <==> 200 <= code <= 299,
        checked matches Err(error) ==> error == (FetchError::Status { code }),
{
    if 200 <= code && code <= 299 {
        Ok(())
    } else {
        Err(FetchError::Status { code })
    }
}

/// The entry of the archive that is extracted: the first, where the
/// archive has an entry.
pub fn entry_to_extract(entry_count: usize) -> (entry: Result<usize, UnpackError>)
    ensures
        entry_count == 0 ==> entry == Err::<usize, UnpackError>(UnpackError::EmptyArchive),
        entry_count > 0 ==> entry == Ok::<usize, UnpackError>(0),
{
    if entry_count == 0 {
        Err(UnpackError::EmptyArchive)
    } else {
        Ok(0)
    }
}

/// The number of bytes to copy next, when `copied` of `size` bytes are
/// copied: a full piece, or what is left where that is less; nothing when
/// all is copied.
pub fn next_copy_len(copied: u64, size: u64) -> (len: usize)
    ensures
        copied >= size ==> len == 0,
        copied < size ==> len == if size - copied >= COPY_CHUNK_BYTES {
            COPY_CHUNK_BYTES as int
        } else {
            size - copied
        },
{
    if copied >= size {
        0
    } else if size - copied >= 1024 {
        COPY_CHUNK_BYTES
    } else {
        (size - copied) as usize
    }
}

} // verus!
