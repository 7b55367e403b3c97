//! The outbound endpoint of a subscriber: the sending half of a bounded
//! tokio channel, carrying pre-rendered SSE frames. The dispatcher only ever
//! performs a non-blocking send on it; what the send reported is summed up in
//! [`SendOutcome`].

use vstd::prelude::*;

verus! {

#[verifier::external_type_specification]
#[verifier::external_body]
#[verifier::reject_recursive_types(T)]
pub struct ExSender<T>(tokio::sync::mpsc::Sender<T>);

/// What one non-blocking send reported.
///
/// `Full` declares the subscriber slow at this instant: the event is dropped
/// for it. `Closed` means the receiving half is gone and the subscriber is to
/// be evicted.
#[derive(Clone, Copy, Debug, PartialEq, Eq, Structural)]
pub enum SendOutcome {
    Delivered,
    Full,
    Closed,
}

/// Relies on tokio's `Sender::try_send`: it returns `Ok` when the frame was
/// placed in the channel, `Err(Full)` when the channel is at capacity and
/// `Err(Closed)` when the receiving half was dropped; it never blocks. The
/// channel is consumed concurrently, so nothing relates the outcome to the
/// arguments: every caller must cope with all three outcomes.
#[verifier::external_body]
pub(crate) fn try_send_frame(tx: &tokio::sync::mpsc::Sender<String>, frame: String) -> (r:
    SendOutcome)
    ensures
        r == SendOutcome::Delivered || r == SendOutcome::Full || r == SendOutcome::Closed,
{
    match tx.try_send(frame) {
        Ok(()) => SendOutcome::Delivered,
        Err(tokio::sync::mpsc::error::TrySendError::Full(_)) => SendOutcome::Full,
        Err(tokio::sync::mpsc::error::TrySendError::Closed(_)) => SendOutcome::Closed,
    }
}

} // verus!
