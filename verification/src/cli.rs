//! The arguments of a run.

use vstd::prelude::*;

verus! {

/// What the operator asked for.
#[derive(Debug)]
pub struct Args {
    /// The archive to read.
    pub input: String,
    /// The delimited file that lists the paths to remove.
    pub filter: String,
    /// The one-based index of the column that holds the paths.
    pub index: usize,
    /// Whether the first record of the list is read as a header.
    pub with_headers: bool,
    /// Where to write the result. Defaults to the input's path.
    pub output: Option<String>,
    /// The compression level.
    pub compression: u32,
}

impl Args {
    /// The destination that arguments stand for: the output where one is
    /// given, the input's path otherwise.
    pub open spec fn destination(input: Seq<char>, output: Option<String>) -> Seq<char> {
        match output {
            Some(path) => path@,
            None => input,
        }
    }

    /// Completes arguments as they were given: where no output is named, the
    /// input's path becomes the output. Nothing else changes.
    pub fn from(given: Args) -> (args: Args)
        ensures
            args.output is Some,
            args.output->0@ == Args::destination(given.input@, given.output),
            args.input == given.input,
            args.filter == given.filter,
            args.index == given.index,
            args.with_headers == given.with_headers,
            args.compression == given.compression,
    {
        let mut args = given;
        if args.output.is_none() {
            args.output = Some(args.input.clone());
        }
        args
    }
}

} // verus!
