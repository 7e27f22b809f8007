//! The options of one run: the input tokens and whether each input is cut
//! after a number of lines or a number of bytes.

use vstd::prelude::*;
use crate::input::is_stdin_token;

verus! {

/// Lines shown of each input when no count is given.
pub const DEFAULT_LINES: u32 = 10;

/// How much of each input is shown.
#[derive(Clone, Copy, Debug, PartialEq, Eq, Structural)]
pub enum Mode {
    /// The first so many lines.
    Lines(u32),
    /// The first so many bytes.
    Bytes(u32),
}

/// Why a set of options cannot make a run.
#[derive(Clone, Copy, Debug, PartialEq, Eq, Structural)]
pub enum UsageError {
    /// A line count and a byte count were both given.
    LinesAndBytes,
    /// A count of zero was given; counts are positive.
    ZeroCount,
}

/// The resolved options of one run.
pub struct Invocation {
    /// The input tokens, in order; never empty.
    pub files: Vec<String>,
    /// How much of each input is shown.
    pub mode: Mode,
}

/// The mode that the given counts select.
pub open spec fn mode_of(lines: Option<u32>, bytes: Option<u32>) -> Mode {
    match bytes {
        Some(b) => Mode::Bytes(b),
        None => Mode::Lines(
            match lines {
                Some(n) => n,
                None => DEFAULT_LINES,
            },
        ),
    }
}

/// Whether a count that was given is zero.
pub open spec fn has_zero_count(lines: Option<u32>, bytes: Option<u32>) -> bool {
    lines == Some(0u32) || bytes == Some(0u32)
}

impl Invocation {
    /// Whether the invocation is well formed: at least one token, and a
    /// positive count.
    pub open spec fn wf(&self) -> bool {
        &&& self.files@.len() > 0
        &&& match self.mode {
            Mode::Lines(n) => n > 0,
            Mode::Bytes(b) => b > 0,
        }
    }

    /// Builds the options of a run from the tokens given and the counts given,
    /// if any. With no tokens the run reads standard input.
    pub fn new(files: Vec<String>, lines: Option<u32>, bytes: Option<u32>) -> (r: Result<
        Invocation,
        UsageError,
    >)
        ensures
            (lines is Some && bytes is Some) <==> r == Err::<Invocation, UsageError>(
                UsageError::LinesAndBytes,
            ),
            (!(lines is Some && bytes is Some) && has_zero_count(lines, bytes)) <==> r == Err::<
                Invocation,
                UsageError,
            >(UsageError::ZeroCount),
            r is Ok <==> !(lines is Some && bytes is Some) && !has_zero_count(lines, bytes),
            r is Ok ==> r.unwrap().wf() && r.unwrap().mode == mode_of(lines, bytes),
            r is Ok && files@.len() > 0 ==> r.unwrap().files@ == files@,
            r is Ok && files@.len() == 0 ==> r.unwrap().files@.len() == 1 && is_stdin_token(
                r.unwrap().files@[0]@,
            ),
    {
        if lines.is_some() && bytes.is_some() {
            return Err(UsageError::LinesAndBytes);
        }
        let mode = match bytes {
            Some(b) => Mode::Bytes(b),
            None => Mode::Lines(
                match lines {
                    Some(n) => n,
                    None => DEFAULT_LINES,
                },
            ),
        };
        match mode {
            Mode::Lines(n) => {
                if n == 0 {
                    return Err(UsageError::ZeroCount);
                }
            },
            Mode::Bytes(b) => {
                if b == 0 {
                    return Err(UsageError::ZeroCount);
                }
            },
        }
        let mut files = files;
        if files.len() == 0 {
            let dash = String::from_str("-");
            proof {
                reveal_strlit("-");
                assert(dash@ =~= seq!['-']);
            }
            files.push(dash);
        }
        Ok(Invocation { files, mode })
    }

    /// Whether the run has more than one input token, so that each input is
    /// shown under a header.
    pub fn is_multi(&self) -> (r: bool)
        ensures
            r == (self.files@.len() > 1),
    {
        self.files.len() > 1
    }
}

} // verus!
