//! Observability labels.
//!
//! Message traffic is counted under a label set of sender, recipient and
//! direction. Building the label values is part of the library's rules —
//! a delivered message without a sender identity is counted under the
//! name "None" — while registering and exposing the counters happens
//! outside.

use vstd::prelude::*;

verus! {

/// Whether a counted message was sent by this identity or received by it.
#[derive(Debug, Clone, Copy, PartialEq, Eq, Structural, Hash)]
pub enum MessageStatus {
    Sent,
    Received,
}

/// The label set that message counters are keyed by.
#[derive(Debug, PartialEq, Eq, Hash)]
pub struct MessageLabels {
    pub from: String,
    pub to: String,
    pub status: MessageStatus,
}

impl MessageLabels {
    /// The labels for a message this identity received; an absent sender
    /// is counted under "None".
    pub fn received(from: Option<String>, to: String) -> (r: MessageLabels)
        ensures
            r.status == MessageStatus::Received,
            r.to@ == to@,
            match from {
                Some(f) => r.from@ == f@,
                None => r.from@ == "None"@,
            },
    {
        let from = match from {
            Some(f) => f,
            None => "None".to_owned(),
        };
        MessageLabels { from, to, status: MessageStatus::Received }
    }

    /// The labels for a message this identity sent.
    pub fn sent(from: String, to: String) -> (r: MessageLabels)
        ensures
            r.status == MessageStatus::Sent,
            r.from@ == from@,
            r.to@ == to@,
    {
        MessageLabels { from, to, status: MessageStatus::Sent }
    }
}

} // verus!
