//! The user driver's decisions.
//!
//! A user periodically asks its client to send a message. The loop, the
//! timer and the channels live outside; here stand the driver's own
//! rules: which identity initiates sends, and how a send reply is read.

use vstd::prelude::*;

verus! {

use crate::client::ClientSendError;

/// How the reply to one send request is read: the reply value, a typed
/// failure, or the reply channel closing without a value — three
/// distinct outcomes.
#[derive(Debug, Clone, Copy, PartialEq, Eq, Structural)]
pub enum SendReplyOutcome {
    Accepted,
    Failed,
    ReplyChannelClosed,
}

/// A user driver bound to one client identity.
pub struct User {
    pub id: String,
}

impl User {
    pub fn new(id: &String) -> (r: Self)
        ensures
            r.id@ == id@,
    {
        User { id: id.clone() }
    }

    /// Whether this driver initiates sends on its ticks; only the
    /// identity "alex" does.
    pub fn initiates_sends(&self) -> (r: bool)
        ensures
            r == (self.id@ == "alex"@),
    {
        let probe: String = "alex".to_owned();
        self.id == probe
    }

    /// Read the reply to one send request.
    pub fn read_send_reply(reply: Option<Result<(), ClientSendError>>) -> (r: SendReplyOutcome)
        ensures
            match reply {
                Some(Ok(())) => r == SendReplyOutcome::Accepted,
                Some(Err(_)) => r == SendReplyOutcome::Failed,
                None => r == SendReplyOutcome::ReplyChannelClosed,
            },
    {
        match reply {
            Some(Ok(())) => SendReplyOutcome::Accepted,
            Some(Err(_)) => SendReplyOutcome::Failed,
            None => SendReplyOutcome::ReplyChannelClosed,
        }
    }
}

} // verus!
