//! The outcome of a privileged command.

use vstd::prelude::*;

verus! {

/// A command that exited with success is `Ok`; one that failed reports the
/// text it wrote to its error stream.
pub fn command_outcome(success: bool, stderr: &str) -> (r: Result<(), String>)
    ensures
        match r {
            Ok(_) => success,
            Err(e) => !success && e@ == stderr@,
        },
{
    if success {
        Ok(())
    } else {
        Err(stderr.to_owned())
    }
}

} // verus!
