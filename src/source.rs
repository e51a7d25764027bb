use vstd::prelude::*;

use crate::error::{Code, Error};

verus! {

/// An input that yields one integer reading per call.  `timeout_ms` bounds
/// how long a reading may take, in milliseconds.
pub trait Source {
    fn get(&mut self, timeout_ms: u64) -> Result<i64, Error>;
}

/// The character is an ASCII decimal digit.
pub open spec fn is_digit(c: char) -> bool {
    '0' <= c && c <= '9'
}

/// The value of a non-empty run of decimal digits.
pub open spec fn digits_value(s: Seq<char>) -> int
    decreases s.len(),
{
    if s.len() == 0 {
        0
    } else {
        digits_value(s.drop_last()) * 10 + (s.last() as u32 - '0' as u32)
    }
}

/// The value that `s` spells as an optional `+` or `-` followed by one or
/// more ASCII digits, with nothing else around them.
pub open spec fn decimal_value(s: Seq<char>) -> Option<int> {
    let signed = s.len() > 0 && (s[0] == '+' || s[0] == '-');
    let d = if signed { s.drop_first() } else { s };
    if d.len() > 0 && forall|i: int| 0 <= i < d.len() ==> is_digit(#[trigger] d[i]) {
        Some(if signed && s[0] == '-' { -digits_value(d) } else { digits_value(d) })
    } else {
        None
    }
}

/// The `i64` that `s` denotes, if it is well formed and in range.
pub open spec fn i64_of(s: Seq<char>) -> Option<i64> {
    match decimal_value(s) {
        Some(v) => if i64::MIN <= v <= i64::MAX { Some(v as i64) } else { None },
        None => None,
    }
}

/// Relies on `<i64 as FromStr>::from_str`: an optional sign and at least one
/// digit, nothing else (no whitespace), and a value that fits.
#[verifier::external_body]
fn parse_i64(s: &str) -> (r: Option<i64>)
    ensures
        r == i64_of(s@),
{
    s.parse::<i64>().ok()
}

/// A reading taken from the text of a file.
pub fn reading_from_text(text: &str) -> (r: Result<i64, Error>)
    ensures
        i64_of(text@) is Some ==> r == Ok::<i64, Error>(i64_of(text@)->0),
        i64_of(text@) is None ==> r is Err && r->Err_0.spec_code() == Code::UnableToParse,
{
    match parse_i64(text) {
        Some(n) => Ok(n),
        None => Err(Error::new(Code::UnableToParse, "Unable to parse read information from file".to_string())),
    }
}

/// What became of one run of an external program.
pub enum ProgramOutcome {
    /// The program could not be started.
    SpawnFailed,
    /// The program had not finished when the timeout ran out.
    TimedOut,
    /// The program finished, with its exit code (none when a signal ended
    /// it) and its standard output, if that could be captured.
    Exited { code: Option<i32>, stdout: Option<String> },
}

/// The reading, or the error, that one run of an input program yields: its
/// standard output must be a single integer, and it must exit with code 0.
pub fn program_result(outcome: ProgramOutcome) -> (r: Result<i64, Error>)
    ensures
        match outcome {
            ProgramOutcome::SpawnFailed => r is Err && r->Err_0.spec_code() == Code::UnableToSpawnCommand,
            ProgramOutcome::TimedOut => r is Err && r->Err_0.spec_code() == Code::Timeout,
            ProgramOutcome::Exited { code, stdout } => if code != Some(0i32) || stdout is None {
                r is Err && r->Err_0.spec_code() == Code::General
            } else {
                match i64_of(stdout->0@) {
                    Some(v) => r == Ok::<i64, Error>(v),
                    None => r is Err && r->Err_0.spec_code() == Code::UnableToParse,
                }
            },
        },
{
    match outcome {
        ProgramOutcome::SpawnFailed => Err(
            Error::new(Code::UnableToSpawnCommand, "Unable to spawn a command".to_string()),
        ),
        ProgramOutcome::TimedOut => Err(Error::new(Code::Timeout, "Command timedout".to_string())),
        ProgramOutcome::Exited { code, stdout } => {
            if code != Some(0i32) {
                return Err(Error::new(Code::General, "Command didn't exit successfuly".to_string()));
            }
            match stdout {
                Some(text) => match parse_i64(text.as_str()) {
                    Some(n) => Ok(n),
                    None => Err(
                        Error::new(Code::UnableToParse, "Unable to parse response from command".to_string()),
                    ),
                },
                None => Err(Error::new(Code::General, "Unable to capture stdout for the command".to_string())),
            }
        },
    }
}

} // verus!
