use vstd::prelude::*;
use vstd::utf8::{decode_utf8, valid_utf8};
use crate::registry::{ApprovalStatus, CommandOutput};
use crate::text::string_from_chars;

verus! {

/// How a run of a command on the host ended, as the runner observed it.
#[derive(Debug, Clone)]
pub enum ProcessOutcome {
    /// The process exited after `elapsed_ms` milliseconds; `code` is absent when a signal
    /// ended it.
    Finished { stdout: Vec<u8>, stderr: Vec<u8>, code: Option<i32>, elapsed_ms: u64 },
    /// The shell could not be started.
    SpawnFailed { message: String },
    /// The output streams could not be read, `elapsed_ms` milliseconds after the start.
    CaptureFailed { message: String, elapsed_ms: u64 },
    /// The process outlived the timeout and was terminated after `elapsed_ms` milliseconds.
    TimedOut { elapsed_ms: u64 },
}

/// How long a run took until it ended; a run that never started took no time.
pub open spec fn elapsed_of(outcome: ProcessOutcome) -> u64 {
    match outcome {
        ProcessOutcome::Finished { elapsed_ms, .. } => elapsed_ms,
        ProcessOutcome::SpawnFailed { .. } => 0,
        ProcessOutcome::CaptureFailed { elapsed_ms, .. } => elapsed_ms,
        ProcessOutcome::TimedOut { elapsed_ms } => elapsed_ms,
    }
}

/// The text that lossy UTF-8 decoding gives for a byte sequence.
pub uninterp spec fn utf8_lossy(b: Seq<u8>) -> Seq<char>;

/// Relies on `String::from_utf8_lossy`: invalid sequences become U+FFFD, and valid UTF-8
/// is decoded as it stands.
#[verifier::external_body]
fn lossy_text(b: &[u8]) -> (r: String)
    ensures
        r@ == utf8_lossy(b@),
        valid_utf8(b@) ==> r@ == decode_utf8(b@),
{
    String::from_utf8_lossy(b).into_owned()
}

/// The character of a decimal digit.
pub open spec fn digit_char(d: nat) -> char {
    seq!['0', '1', '2', '3', '4', '5', '6', '7', '8', '9'][d as int]
}

/// The decimal digits of a natural number, most significant first, without leading zeros.
pub open spec fn decimal(n: nat) -> Seq<char>
    decreases n,
{
    if n < 10 {
        seq![digit_char(n)]
    } else {
        decimal(n / 10).push(digit_char(n % 10))
    }
}

/// The decimal text of an integer, with a minus sign when negative.
pub open spec fn signed_decimal(n: int) -> Seq<char> {
    if n < 0 {
        seq!['-'] + decimal((-n) as nat)
    } else {
        decimal(n as nat)
    }
}

/// The character of a decimal digit.
fn digit(d: u64) -> (c: char)
    requires
        d < 10,
    ensures
        c == digit_char(d as nat),
{
    if d == 0 {
        '0'
    } else if d == 1 {
        '1'
    } else if d == 2 {
        '2'
    } else if d == 3 {
        '3'
    } else if d == 4 {
        '4'
    } else if d == 5 {
        '5'
    } else if d == 6 {
        '6'
    } else if d == 7 {
        '7'
    } else if d == 8 {
        '8'
    } else {
        '9'
    }
}

/// Appends the decimal digits of `n`.
fn push_decimal(out: &mut Vec<char>, n: u128)
    ensures
        final(out)@ == old(out)@ + decimal(n as nat),
    decreases n,
{
    if n >= 10 {
        push_decimal(out, n / 10);
    }
    out.push(digit((n % 10) as u64));
    assert(final(out)@ =~= old(out)@ + decimal(n as nat));
}

/// The decimal digits of `n`.
pub(crate) fn u64_text(n: u64) -> (r: String)
    ensures
        r@ == decimal(n as nat),
{
    let mut out: Vec<char> = Vec::new();
    push_decimal(&mut out, n as u128);
    assert(out@ =~= decimal(n as nat));
    string_from_chars(&out)
}

/// The decimal digits of `n`.
pub(crate) fn u128_text(n: u128) -> (r: String)
    ensures
        r@ == decimal(n as nat),
{
    let mut out: Vec<char> = Vec::new();
    push_decimal(&mut out, n);
    assert(out@ =~= decimal(n as nat));
    string_from_chars(&out)
}

/// Joins the texts with `sep` between neighbours.
pub(crate) fn join_texts(parts: &Vec<String>, sep: &str) -> (r: String)
    ensures
        r@ == join(crate::text::string_views(parts@), sep@),
{
    let ghost v = crate::text::string_views(parts@);
    let mut out = String::new();
    let mut i: usize = 0;
    assert(v.subrange(0, 0) =~= Seq::<Seq<char>>::empty());
    while i < parts.len()
        invariant
            v == crate::text::string_views(parts@),
            i <= parts@.len(),
            out@ == join(v.subrange(0, i as int), sep@),
        decreases parts@.len() - i,
    {
        assert(v.subrange(0, i + 1).drop_last() =~= v.subrange(0, i as int));
        assert(v.subrange(0, i + 1).last() == parts@[i as int]@);
        if i > 0 {
            out.append(sep);
        }
        out.append(parts[i].as_str());
        i += 1;
    }
    assert(v.subrange(0, parts@.len() as int) =~= v);
    out
}

/// The decimal digits of `n`, after a minus sign when negative.
fn i32_text(n: i32) -> (r: String)
    ensures
        r@ == signed_decimal(n as int),
{
    let mut out: Vec<char> = Vec::new();
    if n < 0 {
        out.push('-');
        push_decimal(&mut out, (-(n as i64)) as u128);
    } else {
        push_decimal(&mut out, n as u128);
    }
    assert(out@ =~= signed_decimal(n as int));
    string_from_chars(&out)
}

/// The explanation recorded when a command outlives its timeout.
pub open spec fn timeout_message(secs: u64) -> Seq<char> {
    "Command timed out after "@ + decimal(secs as nat) + " seconds"@
}

/// The explanation recorded when a command could not be run or read.
pub open spec fn failure_message(message: Seq<char>) -> Seq<char> {
    "Command execution failed: "@ + message
}

/// The output recorded for a process that exited: both streams decoded lossily, the
/// exit code or -1 when there is none, success exactly on exit code 0, and the time taken.
pub fn command_output(stdout: &[u8], stderr: &[u8], code: Option<i32>, elapsed_ms: u64) -> (r:
    CommandOutput)
    ensures
        r.duration_ms == elapsed_ms,
        r.stdout@ == utf8_lossy(stdout@),
        r.stderr@ == utf8_lossy(stderr@),
        r.exit_code == match code {
            Some(c) => c,
            None => -1i32,
        },
        r.success == (r.exit_code == 0),
{
    let exit_code = match code {
        Some(c) => c,
        None => -1,
    };
    CommandOutput {
        stdout: lossy_text(stdout),
        stderr: lossy_text(stderr),
        exit_code,
        success: exit_code == 0,
        duration_ms: elapsed_ms,
    }
}

/// The synthetic output of a command that outlived its timeout.
pub fn timeout_output(timeout_secs: u64, elapsed_ms: u64) -> (r: CommandOutput)
    ensures
        r.duration_ms == elapsed_ms,
        r.stdout@ == Seq::<char>::empty(),
        r.stderr@ == timeout_message(timeout_secs),
        r.exit_code == -1,
        !r.success,
{
    let mut stderr = "Command timed out after ".to_owned();
    let digits = u64_text(timeout_secs);
    stderr.append(digits.as_str());
    stderr.append(" seconds");
    CommandOutput {
        stdout: String::new(),
        stderr,
        exit_code: -1,
        success: false,
        duration_ms: elapsed_ms,
    }
}

/// The synthetic output of a command that could not be run or read.
pub fn failure_output(message: &str, elapsed_ms: u64) -> (r: CommandOutput)
    ensures
        r.duration_ms == elapsed_ms,
        r.stdout@ == Seq::<char>::empty(),
        r.stderr@ == failure_message(message@),
        r.exit_code == -1,
        !r.success,
{
    let mut stderr = "Command execution failed: ".to_owned();
    stderr.append(message);
    CommandOutput {
        stdout: String::new(),
        stderr,
        exit_code: -1,
        success: false,
        duration_ms: elapsed_ms,
    }
}

/// `o` is what an execution that ended in `outcome` reports.
pub open spec fn reports(outcome: ProcessOutcome, timeout_secs: u64, o: CommandOutput) -> bool {
    o.duration_ms == elapsed_of(outcome) && match outcome {
        ProcessOutcome::Finished { stdout, stderr, code, .. } => {
            &&& o.stdout@ == utf8_lossy(stdout@)
            &&& o.stderr@ == utf8_lossy(stderr@)
            &&& o.exit_code == match code {
                Some(c) => c,
                None => -1i32,
            }
            &&& o.success == (o.exit_code == 0)
        },
        ProcessOutcome::SpawnFailed { message } => o.stderr@ == failure_message(message@)
            && o.stdout@.len() == 0 && o.exit_code == -1 && !o.success,
        ProcessOutcome::CaptureFailed { message, .. } => o.stderr@ == failure_message(message@)
            && o.stdout@.len() == 0 && o.exit_code == -1 && !o.success,
        ProcessOutcome::TimedOut { .. } => o.stderr@ == timeout_message(timeout_secs) && o.stdout@.len()
            == 0 && o.exit_code == -1 && !o.success,
    }
}

/// The result that an execution reports, whatever ended it.
pub fn execution_result(outcome: &ProcessOutcome, timeout_secs: u64) -> (r: CommandOutput)
    ensures
        reports(*outcome, timeout_secs, r),
{
    match outcome {
        ProcessOutcome::Finished { stdout, stderr, code, elapsed_ms } => command_output(
            stdout.as_slice(),
            stderr.as_slice(),
            *code,
            *elapsed_ms,
        ),
        ProcessOutcome::SpawnFailed { message } => failure_output(message.as_str(), 0),
        ProcessOutcome::CaptureFailed { message, elapsed_ms } => failure_output(
            message.as_str(),
            *elapsed_ms,
        ),
        ProcessOutcome::TimedOut { elapsed_ms } => timeout_output(timeout_secs, *elapsed_ms),
    }
}

/// The terminal status that an execution leads to: Executed with the output when the
/// process exited, Failed with the explanation otherwise (a timeout included).
pub fn final_status(outcome: &ProcessOutcome, timeout_secs: u64) -> (r: ApprovalStatus)
    ensures
        outcome is Finished ==> (r matches ApprovalStatus::Executed { output } && reports(
            *outcome,
            timeout_secs,
            output,
        )),
        !(outcome is Finished) ==> (r matches ApprovalStatus::Failed { reason } && reason@
            == execution_result_text(*outcome, timeout_secs)),
{
    match outcome {
        ProcessOutcome::Finished { .. } => {
            let output = execution_result(outcome, timeout_secs);
            ApprovalStatus::Executed { output }
        },
        ProcessOutcome::SpawnFailed { message } => ApprovalStatus::Failed {
            reason: failure_output(message.as_str(), 0).stderr,
        },
        ProcessOutcome::CaptureFailed { message, .. } => ApprovalStatus::Failed {
            reason: failure_output(message.as_str(), 0).stderr,
        },
        ProcessOutcome::TimedOut { .. } => ApprovalStatus::Failed {
            reason: timeout_output(timeout_secs, 0).stderr,
        },
    }
}

/// The explanation of an execution that did not end in an exit.
pub open spec fn execution_result_text(outcome: ProcessOutcome, timeout_secs: u64) -> Seq<char> {
    match outcome {
        ProcessOutcome::SpawnFailed { message } => failure_message(message@),
        ProcessOutcome::CaptureFailed { message, .. } => failure_message(message@),
        _ => timeout_message(timeout_secs),
    }
}

/// Joins the parts with `sep` between neighbours.
pub open spec fn join(parts: Seq<Seq<char>>, sep: Seq<char>) -> Seq<char>
    decreases parts.len(),
{
    if parts.len() == 0 {
        Seq::empty()
    } else if parts.len() == 1 {
        parts[0]
    } else {
        join(parts.drop_last(), sep) + sep + parts.last()
    }
}

/// The parts of the error details of an output: the exit code when it failed, the error
/// output when there is some, the standard output when there is some and it failed.
pub open spec fn detail_parts(o: CommandOutput) -> Seq<Seq<char>> {
    let a: Seq<Seq<char>> = if !o.success {
        seq!["Exit code: "@ + signed_decimal(o.exit_code as int)]
    } else {
        seq![]
    };
    let b: Seq<Seq<char>> = if o.stderr@.len() > 0 {
        a.push("Error output:\n"@ + o.stderr@)
    } else {
        a
    };
    if o.stdout@.len() > 0 && !o.success {
        b.push("Standard output:\n"@ + o.stdout@)
    } else {
        b
    }
}

/// The error details of an output, as shown to a user.
pub open spec fn error_details(o: CommandOutput) -> Seq<char> {
    if detail_parts(o).len() == 0 {
        "Command failed with no error details"@
    } else {
        join(detail_parts(o), "\n\n"@)
    }
}

/// Appends `part` to the joined text of `parts`.
fn push_part(acc: &mut String, parts: Ghost<Seq<Seq<char>>>, count: usize, part: &str)
    requires
        old(acc)@ == join(parts@, "\n\n"@),
        count == parts@.len(),
    ensures
        final(acc)@ == join(parts@.push(part@), "\n\n"@),
{
    proof {
        assert(parts@.push(part@).drop_last() =~= parts@);
    }
    if count > 0 {
        acc.append("\n\n");
    }
    acc.append(part);
}

/// Readable details of what went wrong in a command's output.
pub fn get_error_details(output: &CommandOutput) -> (r: String)
    ensures
        r@ == error_details(*output),
{
    let ghost mut parts: Seq<Seq<char>> = seq![];
    let mut acc = String::new();
    let mut count: usize = 0;
    assert(acc@ == join(parts, "\n\n"@));
    assert(count == parts.len());
    if !output.success {
        let mut part = "Exit code: ".to_owned();
        let code = i32_text(output.exit_code);
        part.append(code.as_str());
        push_part(&mut acc, Ghost(parts), count, part.as_str());
        proof {
            parts = parts.push(part@);
        }
        count += 1;
    }
    if output.stderr.as_str().unicode_len() > 0 {
        let mut part = "Error output:\n".to_owned();
        part.append(output.stderr.as_str());
        push_part(&mut acc, Ghost(parts), count, part.as_str());
        proof {
            parts = parts.push(part@);
        }
        count += 1;
    }
    if output.stdout.as_str().unicode_len() > 0 && !output.success {
        let mut part = "Standard output:\n".to_owned();
        part.append(output.stdout.as_str());
        push_part(&mut acc, Ghost(parts), count, part.as_str());
        proof {
            parts = parts.push(part@);
        }
        count += 1;
    }
    assert(parts =~= detail_parts(*output));
    if count == 0 {
        "Command failed with no error details".to_owned()
    } else {
        acc
    }
}

} // verus!
