//! The outcome of running an external command.
use vstd::prelude::*;

use std::time::Duration;

use crate::text::{chars_of, slice_chars, string_from_chars};
use crate::theme::{lemma_utf8_len_take, utf8_len, utf8_width_exec};

verus! {

#[verifier::external_type_specification]
#[verifier::external_body]
pub struct ExIoError(std::io::Error);

/// What a command that exited successfully printed, and its exit code.
#[derive(Debug, Clone)]
pub struct CommandResult {
    pub stdout: String,
    pub exit_code: Option<i32>,
}

/// Why running a command failed.
#[derive(Debug)]
pub enum CommandError {
    /// The program does not exist.
    NotFound(String),
    /// The command ran longer than allowed.
    Timeout(Duration),
    /// The command printed more than the byte cap.
    OutputTooLarge(usize),
    /// The command exited with a non-zero code; `stderr` is what it printed there.
    Failed { exit_code: i32, stderr: String },
    /// Spawning or reading the command failed.
    Io(std::io::Error),
}

/// The most bytes of a failed command's stderr that are kept.
pub const MAX_STDERR_DISPLAY: usize = 1024;

/// `s.take(k)` is the longest prefix of `s` that takes at most `max` bytes
/// in UTF-8.
pub open spec fn longest_prefix_within(s: Seq<char>, max: nat, k: int) -> bool {
    &&& 0 <= k <= s.len()
    &&& utf8_len(s.take(k)) <= max
    &&& (k < s.len() ==> utf8_len(s.take(k + 1)) > max)
}

/// `s` cut to at most `MAX_STDERR_DISPLAY` bytes, on a character boundary:
/// the longest prefix that fits.
pub fn cut_stderr(s: &str) -> (r: String)
    ensures
        exists|k: int| #[trigger] longest_prefix_within(s@, MAX_STDERR_DISPLAY as nat, k) && r@ == s@.take(k),
{
    let v = chars_of(s);
    let mut total: usize = 0;
    let mut i: usize = 0;
    while i < v.len()
        invariant
            i <= v.len(),
            v@ == s@,
            total == utf8_len(v@.take(i as int)),
            total <= MAX_STDERR_DISPLAY,
        ensures
            i <= v.len(),
            total == utf8_len(v@.take(i as int)),
            total <= MAX_STDERR_DISPLAY,
            i < v.len() ==> total + crate::theme::utf8_width(v@[i as int]) > MAX_STDERR_DISPLAY,
        decreases v.len() - i,
    {
        proof {
            lemma_utf8_len_take(v@, i as int);
        }
        let w = utf8_width_exec(v[i]);
        if total + w > MAX_STDERR_DISPLAY {
            break;
        }
        total = total + w;
        i += 1;
    }
    proof {
        if i < v.len() {
            lemma_utf8_len_take(v@, i as int);
        }
        assert(v@ == s@);
        assert(longest_prefix_within(s@, MAX_STDERR_DISPLAY as nat, i as int));
    }
    let cut = slice_chars(&v, 0, i);
    assert(cut@ =~= s@.take(i as int));
    string_from_chars(&cut)
}

/// How a command that ran to the end turned out: its stdout and exit code
/// when it succeeded; otherwise `Failed` with its exit code (-1 when it
/// has none, as when a signal ended it) and its stderr cut by `cut_stderr`.
pub fn command_outcome(success: bool, code: Option<i32>, stdout: String, stderr: &str) -> (r: Result<CommandResult, CommandError>)
    ensures
        success ==> (r matches Ok(c) && c.stdout@ == stdout@ && c.exit_code == code),
        !success ==> (r matches Err(CommandError::Failed { exit_code, stderr: cut }) && exit_code == (match code {
            Some(c) => c as int,
            None => -1int,
        }) && exists|k: int| #[trigger] longest_prefix_within(stderr@, MAX_STDERR_DISPLAY as nat, k) && cut@ == stderr@.take(k)),
{
    if success {
        Ok(CommandResult { stdout, exit_code: code })
    } else {
        let exit_code = match code {
            Some(c) => c,
            None => -1,
        };
        Err(CommandError::Failed { exit_code, stderr: cut_stderr(stderr) })
    }
}

} // verus!
