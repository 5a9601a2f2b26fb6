//! Decisions of the transport's receive loop; the loop itself, which awaits
//! frames, runs outside the library.
use vstd::prelude::*;

verus! {

/// Receive failures in a row after which the transport gives up.
pub const RETRY_ATTEMPT: u32 = 5;

/// What one read from the transport gave.
#[derive(Debug, Clone, Copy, PartialEq, Eq, Structural)]
pub enum ReceiveEvent {
    /// A binary data frame.
    Binary,
    /// A text data frame.
    Text,
    /// A control frame (ping, pong, close).
    Control,
    /// The read failed.
    Failed,
    /// The stream ended.
    Ended,
}

/// What the receive loop does next.
#[derive(Debug, Clone, Copy, PartialEq, Eq, Structural)]
pub enum ReceiveAction {
    /// Hand the frame to the message handler.
    Deliver,
    /// Ignore the frame and read again.
    Skip,
    /// Read again after a failure.
    Retry,
    /// Give up: report the failure to the error handler and stop.
    Fail,
    /// Stop reading.
    Stop,
}

/// The loop's next action and its count of failures in a row.
#[derive(Debug, Clone, Copy)]
pub struct ReceiveStep {
    pub action: ReceiveAction,
    pub retry_count: u32,
}

/// One step of the receive loop. A closed channel stops; a data frame is
/// delivered and clears the failure count; a control frame is skipped; a
/// failure counts, and the `limit`-th in a row is fatal; the end of the
/// stream stops.
pub fn next_receive_step(is_open: bool, retry_count: u32, limit: u32, event: ReceiveEvent) -> (r:
    ReceiveStep)
    ensures
        !is_open ==> r.action == ReceiveAction::Stop && r.retry_count == retry_count,
        is_open && (event == ReceiveEvent::Binary || event == ReceiveEvent::Text) ==> r.action
            == ReceiveAction::Deliver && r.retry_count == 0,
        is_open && event == ReceiveEvent::Control ==> r.action == ReceiveAction::Skip
            && r.retry_count == retry_count,
        is_open && event == ReceiveEvent::Ended ==> r.action == ReceiveAction::Stop && r.retry_count
            == retry_count,
        is_open && event == ReceiveEvent::Failed ==> {
            let next: int = if retry_count == u32::MAX {
                u32::MAX as int
            } else {
                retry_count + 1
            };
            &&& r.retry_count == next
            &&& (r.action == ReceiveAction::Fail <==> next >= limit)
            &&& (r.action == ReceiveAction::Retry <==> next < limit)
        },
{
    if !is_open {
        return ReceiveStep { action: ReceiveAction::Stop, retry_count };
    }
    match event {
        ReceiveEvent::Binary | ReceiveEvent::Text => ReceiveStep {
            action: ReceiveAction::Deliver,
            retry_count: 0,
        },
        ReceiveEvent::Control => ReceiveStep { action: ReceiveAction::Skip, retry_count },
        ReceiveEvent::Ended => ReceiveStep { action: ReceiveAction::Stop, retry_count },
        ReceiveEvent::Failed => {
            let next = if retry_count == u32::MAX {
                u32::MAX
            } else {
                retry_count + 1
            };
            if next >= limit {
                ReceiveStep { action: ReceiveAction::Fail, retry_count: next }
            } else {
                ReceiveStep { action: ReceiveAction::Retry, retry_count: next }
            }
        },
    }
}

} // verus!
