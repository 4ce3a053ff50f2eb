//! Decisions of the shell's main loop that are not tied to one pipeline:
//! what to do with the outcome of reading a line, and what the `cd` builtin
//! does with its arguments.

use vstd::prelude::*;
use crate::bytes::sub_vec;

verus! {

/// The outcome of reading one line from the input stream.
pub enum ReadResult {
    /// The input stream is closed.
    Eof,
    /// One line was read.
    Line(Vec<u8>),
    /// The read itself failed.
    ReadFailure,
}

/// What the main loop does next.
pub enum LoopDirective {
    /// Terminate the shell with no reported error.
    ExitCleanly,
    /// Report the read error, then terminate.
    ReportErrorAndExit,
    /// Process the line as a pipeline.
    Process(Vec<u8>),
}

/// End of input terminates the shell cleanly with no reported error; a read
/// failure is reported and terminates; a line is processed.
pub fn on_input(r: ReadResult) -> (d: LoopDirective)
    ensures
        r is Eof ==> d is ExitCleanly,
        r is ReadFailure ==> d is ReportErrorAndExit,
        r matches ReadResult::Line(l) ==> d matches LoopDirective::Process(b) && b@ == l@,
{
    match r {
        ReadResult::Eof => LoopDirective::ExitCleanly,
        ReadResult::ReadFailure => LoopDirective::ReportErrorAndExit,
        ReadResult::Line(l) => LoopDirective::Process(l),
    }
}

/// The directory the `cd` builtin changes to: its first argument; `cd` with
/// no argument is an error and changes nothing.
pub fn cd_target(args: &Vec<Vec<u8>>) -> (r: Option<Vec<u8>>)
    ensures
        match r {
            Some(p) => args@.len() > 0 && p@ == args@[0]@,
            None => args@.len() == 0,
        },
{
    if args.len() == 0 {
        None
    } else {
        let p = sub_vec(args[0].as_slice(), 0, args[0].len());
        proof {
            assert(p@ =~= args@[0]@);
        }
        Some(p)
    }
}

} // verus!
