use vstd::prelude::*;
use vstd::string::*;

use crate::channel::{GrpcReadError, GrpcStatus, StatusCode};
use crate::telemetry::{decimal, u64_to_string};

verus! {

/// How one read of a response stream under its per-item timeout ended.
pub enum ReadOutcome<T> {
    TimedOut,
    Item(Result<T, GrpcStatus>),
    End,
}

/// The message of the status that stands for a read that timed out.
pub open spec fn timeout_message(timeout_ms: u64) -> Seq<char> {
    "Timeout "@ + decimal(timeout_ms as int) + "ms"@
}

/// The next item of a response stream: a read that timed out gives an
/// `Aborted` status, the end of the stream gives `None`.
pub fn next_item<T>(outcome: ReadOutcome<T>, timeout_ms: u64) -> (r: Option<Result<T, GrpcStatus>>)
    ensures
        outcome is End ==> r is None,
        outcome matches ReadOutcome::Item(item) ==> r == Some(item),
        outcome is TimedOut ==> (r matches Some(Err(s)) && s.code == StatusCode::Aborted
            && s.message@ == timeout_message(timeout_ms)),
{
    match outcome {
        ReadOutcome::TimedOut => {
            let mut message = String::from_str("Timeout ");
            let ms = u64_to_string(timeout_ms);
            message.append(ms.as_str());
            message.append("ms");
            Some(Err(GrpcStatus { code: StatusCode::Aborted, message }))
        },
        ReadOutcome::Item(item) => Some(item),
        ReadOutcome::End => None,
    }
}

/// What a loop that drains a response stream does after one read.
#[derive(Debug)]
pub enum CollectStep {
    Continue,
    Done,
    Failed(GrpcReadError),
}

/// One step of draining a stream into `items`: an item is kept and reading
/// goes on; the end finishes; a status or a timeout fails the whole read.
pub fn collect_next<T>(items: &mut Vec<T>, outcome: ReadOutcome<T>) -> (r: CollectStep)
    ensures
        outcome matches ReadOutcome::Item(Ok(v)) ==> r is Continue && final(items)@ == old(
            items,
        )@.push(v),
        !(outcome matches ReadOutcome::Item(Ok(_))) ==> final(items)@ == old(items)@,
        outcome is End ==> r is Done,
        outcome is TimedOut ==> r matches CollectStep::Failed(GrpcReadError::Timeout),
        outcome matches ReadOutcome::Item(Err(s)) ==> r == CollectStep::Failed(
            GrpcReadError::TonicStatus(s),
        ),
{
    match outcome {
        ReadOutcome::Item(Ok(v)) => {
            items.push(v);
            CollectStep::Continue
        },
        ReadOutcome::Item(Err(status)) => CollectStep::Failed(GrpcReadError::TonicStatus(status)),
        ReadOutcome::TimedOut => CollectStep::Failed(GrpcReadError::Timeout),
        ReadOutcome::End => CollectStep::Done,
    }
}

/// One step of reading a stream that holds at most one item: the item is
/// kept and reading goes on until the end. A second item is a misuse that
/// the caller rules out.
pub fn single_next<T>(found: &mut Option<T>, outcome: ReadOutcome<T>) -> (r: CollectStep)
    requires
        !((*old(found)) is Some && (outcome matches ReadOutcome::Item(Ok(_)))),
    ensures
        outcome matches ReadOutcome::Item(Ok(v)) ==> r is Continue && *final(found) == Some(v),
        !(outcome matches ReadOutcome::Item(Ok(_))) ==> *final(found) == *old(found),
        outcome is End ==> r is Done,
        outcome is TimedOut ==> r matches CollectStep::Failed(GrpcReadError::Timeout),
        outcome matches ReadOutcome::Item(Err(s)) ==> r == CollectStep::Failed(
            GrpcReadError::TonicStatus(s),
        ),
{
    match outcome {
        ReadOutcome::Item(Ok(v)) => {
            *found = Some(v);
            CollectStep::Continue
        },
        ReadOutcome::Item(Err(status)) => CollectStep::Failed(GrpcReadError::TonicStatus(status)),
        ReadOutcome::TimedOut => CollectStep::Failed(GrpcReadError::Timeout),
        ReadOutcome::End => CollectStep::Done,
    }
}

} // verus!
