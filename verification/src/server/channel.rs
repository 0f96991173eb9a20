//! The bounded channels that carry frames to connection tasks.
use vstd::prelude::*;

use tokio::sync::mpsc::error::TrySendError;
use tokio::sync::mpsc::Sender;

use crate::protocol::frame::Frame;


verus! {

/// The sending half of a bounded frame channel is carried through the
/// registries unchanged.
#[verifier::external_type_specification]
#[verifier::external_body]
#[verifier::reject_recursive_types(T)]
pub struct ExSender<T>(tokio::sync::mpsc::Sender<T>);

/// `Sender::clone`: another handle to the same channel. A `Sender` holds
/// nothing but its `Tx`, which holds nothing but the `Arc` of the channel;
/// the clone counts one more sender in the channel and holds a clone of that
/// `Arc`, so it is the same handle as `tx`.
pub assume_specification<T>[ <tokio::sync::mpsc::Sender<T> as core::clone::Clone>::clone ](
    tx: &tokio::sync::mpsc::Sender<T>,
) -> (r: tokio::sync::mpsc::Sender<T>)
    ensures
        r == *tx,
;

/// What became of a frame offered to a channel without waiting.
#[derive(Debug, Clone, Copy, PartialEq, Eq)]
pub enum SendOutcome {
    /// The frame was queued.
    Queued,
    /// The channel had no room; the frame was dropped.
    Full,
    /// The receiving side is gone; the frame was dropped.
    Closed,
}

/// The frames offered to channels without waiting, in order, each with the
/// channel it was offered to.
pub struct OfferLog {
    offers: Ghost<Seq<(Sender<Frame>, Frame)>>,
}

impl OfferLog {
    /// The offers made so far, oldest first.
    pub closed spec fn offers(&self) -> Seq<(Sender<Frame>, Frame)> {
        self.offers@
    }

    /// A log of no offers.
    pub fn new() -> (r: Self)
        ensures
            r.offers() == Seq::<(Sender<Frame>, Frame)>::empty(),
    {
        OfferLog { offers: Ghost(Seq::empty()) }
    }
}

/// `Sender::try_send`: queues the frame when the channel has room, and
/// reports a full or closed channel otherwise; the log records that `frame`
/// was offered to `tx`. Which of the three happens depends on the channel's
/// state and is not stated.
#[verifier::external_body]
pub(crate) fn try_send_frame(tx: &Sender<Frame>, frame: Frame, log: &mut OfferLog) -> (r: SendOutcome)
    ensures
        final(log).offers() == old(log).offers().push((*tx, frame)),
{
    log.offers = Ghost(log.offers@.push((*tx, frame)));
    match tx.try_send(frame) {
        Ok(()) => SendOutcome::Queued,
        Err(TrySendError::Full(_)) => SendOutcome::Full,
        Err(TrySendError::Closed(_)) => SendOutcome::Closed,
    }
}

} // verus!
