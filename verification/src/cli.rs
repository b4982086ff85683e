//! The command line: where the tracker keeps its files.

use vstd::prelude::*;
use vstd::string::*;

verus! {

/// More than one argument was given.
#[derive(Clone, Copy, PartialEq, Eq, Debug, Structural)]
pub struct UsageError {
    /// How many arguments were given, the program's name not counted.
    pub given: usize,
}

/// The directory that is used when none is named.
pub open spec fn default_dir() -> Seq<char> {
    "./"@
}

/// The storage directory that the command line names. `args` is the whole
/// command line, the program's name first: without an argument it is the
/// current directory, with one it is that argument, and more than one is an
/// error.
pub fn storage_dir(args: &Vec<String>) -> (dir: Result<String, UsageError>)
    ensures
        match dir {
            Ok(d) => args.len() <= 2 && d@ == if args.len() == 2 {
                args@[1]@
            } else {
                default_dir()
            },
            Err(e) => args.len() > 2 && e.given == args.len() - 1,
        },
{
    if args.len() > 2 {
        Err(UsageError { given: args.len() - 1 })
    } else if args.len() == 2 {
        Ok(args[1].clone())
    } else {
        Ok(String::from_str("./"))
    }
}

} // verus!
