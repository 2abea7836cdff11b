use vstd::prelude::*;

verus! {

/// tokio's broadcast sender, declared so that library functions can carry
/// one and hand every session's notices to the shared line bus.
#[verifier::external_type_specification]
#[verifier::external_body]
#[verifier::reject_recursive_types(T)]
pub struct ExSender<T>(tokio::sync::broadcast::Sender<T>);

/// tokio's broadcast receiver: one independent, bounded subscription.
#[verifier::external_type_specification]
#[verifier::external_body]
#[verifier::reject_recursive_types(T)]
pub struct ExReceiver<T>(tokio::sync::broadcast::Receiver<T>);

/// One attempt to read a subscription without waiting.
pub enum RecvAttempt {
    /// The next pending line.
    Line(String),
    /// The subscription overflowed: this many lines were discarded before
    /// they could be read.
    Missed(u64),
    /// No line is pending right now.
    Empty,
    /// The channel is closed.
    Closed,
}

/// Relies on tokio's broadcast `Sender::send`, which hands the line to every
/// live subscription, discarding a full subscription's oldest entries, and
/// fails exactly when no subscription is live. Who is subscribed at that
/// moment no caller can know, so nothing is promised of the result.
#[verifier::external_body]
pub(crate) fn bus_send(tx: &tokio::sync::broadcast::Sender<String>, line: String) -> bool {
    tx.send(line).is_ok()
}

/// Relies on tokio's broadcast `Receiver::try_recv`, which returns the next
/// pending line, if any, without waiting. What is pending depends on
/// concurrent senders, so nothing is promised of the result.
#[verifier::external_body]
pub(crate) fn bus_try_recv(rx: &mut tokio::sync::broadcast::Receiver<String>) -> RecvAttempt {
    match rx.try_recv() {
        Ok(line) => RecvAttempt::Line(line),
        Err(tokio::sync::broadcast::error::TryRecvError::Lagged(n)) => RecvAttempt::Missed(n),
        Err(tokio::sync::broadcast::error::TryRecvError::Empty) => RecvAttempt::Empty,
        Err(tokio::sync::broadcast::error::TryRecvError::Closed) => RecvAttempt::Closed,
    }
}

/// Relies on tokio's broadcast `Receiver::len`, which counts the lines
/// already published but not yet read on this subscription. Concurrent
/// senders may change the count at any moment, so nothing is promised of
/// the result.
#[verifier::external_body]
pub(crate) fn bus_pending(rx: &tokio::sync::broadcast::Receiver<String>) -> usize {
    rx.len()
}

/// Publishes the notice, if there is one, on the shared bus. Delivery is
/// best effort: a bus without subscribers swallows the line, and the
/// failure is never surfaced to the publishing session.
pub fn publish(tx: &tokio::sync::broadcast::Sender<String>, notice: &Option<String>) {
    match notice {
        Some(line) => {
            bus_send(tx, line.clone());
        },
        None => {},
    }
}

/// Empties whatever already sits on a fresh subscription, so that a newly
/// joined client is not shown chatter published before its join.
pub fn drain_pending(rx: &mut tokio::sync::broadcast::Receiver<String>) {
    let pending = bus_pending(rx);
    let mut i: usize = 0;
    while i < pending
        invariant
            0 <= i <= pending,
        decreases pending - i,
    {
        let got = bus_try_recv(rx);
        match got {
            RecvAttempt::Line(_) => {},
            _ => {
                return ;
            },
        }
        i += 1;
    }
}

} // verus!
