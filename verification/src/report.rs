//! What the operator is told of each worker: how many records it wrote, or
//! where it failed and why.

use crate::worker::{WorkerError, WorkerResult};
use vstd::prelude::*;
use vstd::string::{StrSliceExecFns, StringExecFns};

verus! {

/// The ten digits, in order.
pub open spec fn digit_chars() -> Seq<char> {
    "0123456789"@
}

/// A number in decimal, without leading zeros.
pub open spec fn decimal_digits(n: nat) -> Seq<char>
    decreases n,
{
    if n < 10 {
        seq![digit_chars()[n as int]]
    } else {
        decimal_digits(n / 10).push(digit_chars()[(n % 10) as int])
    }
}

/// The kind of an error in words, then a colon and the sink's message.
pub open spec fn cause_text(cause: WorkerError) -> Seq<char> {
    match cause {
        WorkerError::ConnectionError(message) => "connection error: "@ + message@,
        WorkerError::NamespaceError(message) => "namespace error: "@ + message@,
        WorkerError::WriteError(message) => "write error: "@ + message@,
    }
}

/// The line that tells of worker `worker` and its outcome: the records
/// written where it completed; where it failed, the batch at which it did,
/// the records written before, and the cause.
pub open spec fn report_text(worker: nat, result: WorkerResult) -> Seq<char> {
    match result {
        WorkerResult::Completed { count } => "Worker "@ + decimal_digits(worker) + ": wrote "@
            + decimal_digits(count as nat) + " records"@,
        WorkerResult::Failed { at_batch, written, cause } => "Worker "@ + decimal_digits(worker)
            + ": failed at batch "@ + decimal_digits(at_batch as nat) + " after "@
            + decimal_digits(written as nat) + " records: "@ + cause_text(cause),
    }
}

/// One digit as a string of its own.
fn digit(d: usize) -> (piece: &'static str)
    requires
        d < 10,
    ensures
        piece@ == seq![digit_chars()[d as int]],
{
    proof {
        reveal_strlit("0123456789");
    }
    let digits: &'static str = "0123456789";
    let piece = digits.substring_char(d, d + 1);
    assert(piece@ =~= seq![digit_chars()[d as int]]);
    piece
}

/// Writes a number in decimal.
pub fn decimal(n: usize) -> (text: String)
    ensures
        text@ == decimal_digits(n as nat),
    decreases n,
{
    if n < 10 {
        String::from_str(digit(n))
    } else {
        let mut text = decimal(n / 10);
        text.append(digit(n % 10));
        assert(text@ =~= decimal_digits(n as nat));
        text
    }
}

/// Says in words why a worker failed.
pub fn describe_cause(cause: &WorkerError) -> (text: String)
    ensures
        text@ == cause_text(*cause),
{
    match cause {
        WorkerError::ConnectionError(message) => {
            let mut text = String::from_str("connection error: ");
            text.append(message.as_str());
            text
        },
        WorkerError::NamespaceError(message) => {
            let mut text = String::from_str("namespace error: ");
            text.append(message.as_str());
            text
        },
        WorkerError::WriteError(message) => {
            let mut text = String::from_str("write error: ");
            text.append(message.as_str());
            text
        },
    }
}

/// The line that tells the operator of one worker's outcome.
pub fn report_line(worker: usize, result: &WorkerResult) -> (line: String)
    ensures
        line@ == report_text(worker as nat, *result),
{
    let mut line = String::from_str("Worker ");
    line.append(decimal(worker).as_str());
    match result {
        WorkerResult::Completed { count } => {
            line.append(": wrote ");
            line.append(decimal(*count).as_str());
            line.append(" records");
        },
        WorkerResult::Failed { at_batch, written, cause } => {
            line.append(": failed at batch ");
            line.append(decimal(*at_batch).as_str());
            line.append(" after ");
            line.append(decimal(*written).as_str());
            line.append(" records: ");
            line.append(describe_cause(cause).as_str());
        },
    }
    line
}

} // verus!
