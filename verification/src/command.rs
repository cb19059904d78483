//! Running a converter with a deadline, as a state machine: the caller
//! spawns the process, polls it, sleeps and kills it; this module decides
//! after each poll what happens next and what the outcome is.

use vstd::prelude::*;

use crate::error::SpdfError;
use crate::text::{append_str, chars_of, decimal_string, string_of, trim, trim_vec, u64_to_decimal};

verus! {

/// What to do after polling a running converter.
#[derive(Clone, Copy, Debug, PartialEq, Eq, Structural)]
pub enum PollAction {
    /// The process has exited: collect its output.
    Finished,
    /// The deadline has passed: kill the process and fail.
    Kill,
    /// Sleep briefly and poll again.
    Wait,
}

/// The decision after one poll: `exited` says whether the process has
/// exited, `elapsed_ms` how long it has run.
pub fn poll_step(exited: bool, elapsed_ms: u64, timeout_ms: u64) -> (r: PollAction)
    ensures
        exited ==> r == PollAction::Finished,
        !exited && elapsed_ms >= timeout_ms ==> r == PollAction::Kill,
        !exited && elapsed_ms < timeout_ms ==> r == PollAction::Wait,
{
    if exited {
        PollAction::Finished
    } else if elapsed_ms >= timeout_ms {
        PollAction::Kill
    } else {
        PollAction::Wait
    }
}

/// An integer in decimal, with a leading `-` when negative.
pub open spec fn int_decimal(i: int) -> Seq<char> {
    if i < 0 {
        "-"@ + decimal_string((-i) as nat)
    } else {
        decimal_string(i as nat)
    }
}

/// Renders an `i32` as `format!("{}")` does.
pub fn i32_to_decimal(i: i32) -> (r: String)
    ensures
        r@ == int_decimal(i as int),
{
    if i < 0 {
        let wide: i64 = i as i64;
        let mag: u64 = (-wide) as u64;
        let digits = u64_to_decimal(mag);
        let mut v: Vec<char> = Vec::new();
        append_str(&mut v, "-");
        append_str(&mut v, digits.as_str());
        assert(v@ =~= int_decimal(i as int));
        string_of(&v)
    } else {
        u64_to_decimal(i as u64)
    }
}

/// The message for a converter that exited unsuccessfully: its exit code
/// (`-1` when it has none, as when killed by a signal) and its trimmed
/// standard error.
pub open spec fn exit_message(code: Option<i32>, stderr: Seq<char>) -> Seq<char> {
    "command exited "@ + int_decimal(
        match code {
            Some(c) => c as int,
            None => -1,
        },
    ) + ": "@ + trim(stderr)
}

/// The outcome of a converter that has exited: its standard output on
/// success, else a conversion error.
pub fn command_outcome(success: bool, code: Option<i32>, stdout: String, stderr: &str) -> (r: Result<
    String,
    SpdfError,
>)
    ensures
        success ==> (r matches Ok(out) && out@ == stdout@),
        !success ==> (r matches Err(SpdfError::Conversion(m)) && m@ == exit_message(code, stderr@)),
{
    if success {
        return Ok(stdout);
    }
    let c: i32 = match code {
        Some(c) => c,
        None => -1,
    };
    let mut v: Vec<char> = Vec::new();
    append_str(&mut v, "command exited ");
    let cs = i32_to_decimal(c);
    append_str(&mut v, cs.as_str());
    append_str(&mut v, ": ");
    let t = trim_vec(&chars_of(stderr));
    crate::text::append_chars(&mut v, &t);
    assert(v@ =~= exit_message(code, stderr@));
    Err(SpdfError::Conversion(string_of(&v)))
}

/// The message for a converter killed at its deadline of `secs` whole
/// seconds, the duration written as `Duration`'s `Debug` writes it.
pub open spec fn timeout_message(secs: u64) -> Seq<char> {
    "command timeout after "@ + decimal_string(secs as nat) + "s"@
}

/// The error for a converter killed at its deadline.
pub fn timeout_error(secs: u64) -> (r: SpdfError)
    requires
        secs > 0,
    ensures
        r matches SpdfError::Conversion(m) && m@ == timeout_message(secs),
{
    let mut v: Vec<char> = Vec::new();
    append_str(&mut v, "command timeout after ");
    let d = u64_to_decimal(secs);
    append_str(&mut v, d.as_str());
    append_str(&mut v, "s");
    assert(v@ =~= timeout_message(secs));
    SpdfError::Conversion(string_of(&v))
}

} // verus!
