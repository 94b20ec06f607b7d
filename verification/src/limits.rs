//! How much may go on at a time.

use vstd::prelude::*;

use crate::error::{ErrorKind, Failure};

verus! {

/// The number of file descriptors to reckon with where the limit is not known.
pub const DEFAULT_FD_LIMIT: usize = 100;

/// The limit on open file descriptors, from what `getrlimit` answered: its return value, the
/// current limit, and the error that the system reports after a failed call. A limit too
/// large for the machine's word counts as the largest.
pub fn get_fd_limit<E>(ret: i32, rlim_cur: u64, os_error: E) -> (limit: Result<usize, Failure<E>>)
    ensures
        match limit {
            Ok(limit) => {
                &&& ret == 0
                &&& limit == if rlim_cur <= usize::MAX {
                    rlim_cur as int
                } else {
                    usize::MAX as int
                }
            },
            Err(failure) => {
                &&& ret != 0
                &&& failure.kind == ErrorKind::FileDescriptorLimit
                &&& failure.cause == Some(os_error)
            },
        },
        limit is Ok <==> ret == 0,
        limit matches Ok(limit) ==> limit <= rlim_cur && (limit < usize::MAX ==> limit == rlim_cur),
{
    if ret == 0 {
        if rlim_cur <= usize::MAX as u64 {
            Ok(rlim_cur as usize)
        } else {
            Ok(usize::MAX)
        }
    } else {
        Err(Failure::caused_by(ErrorKind::FileDescriptorLimit, os_error))
    }
}

/// How many files to work on at a time: half the limit on open file descriptors. That is none
/// where the limit is below two.
pub fn files_at_a_time<E>(limit: Result<usize, Failure<E>>) -> (files: usize)
    ensures
        files == match limit {
            Ok(limit) => limit / 2,
            Err(_) => DEFAULT_FD_LIMIT / 2,
        },
        limit matches Ok(limit) ==> 2 * files <= limit < 2 * files + 2,
        limit is Err ==> files == 50,
{
    match limit {
        Ok(limit) => limit / 2,
        Err(_) => DEFAULT_FD_LIMIT / 2,
    }
}

} // verus!
