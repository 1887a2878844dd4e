//! The message record and its mathematical view.

use crate::ident::{fresh_id, is_version_7};
use vstd::prelude::*;

verus! {

/// Where a message stands in its life.
#[derive(Debug, Clone, Copy, PartialEq, Eq, Structural)]
pub enum MessageState {
    /// Waiting in the ready queue.
    Ready,
    /// Leased to a consumer.
    Processing,
    /// Acknowledged; no stored message is ever in this state.
    Done,
}

/// A message of the queue.
#[derive(Debug)]
pub struct Message {
    pub id: u128,
    pub body: String,
    pub state: MessageState,
    pub lock_until: Option<i64>,
    pub retry_count: i32,
}

/// What a message is to the contracts: its fields, the body as a sequence of
/// characters and the retry count as a mathematical integer.
pub struct MessageView {
    pub id: u128,
    pub body: Seq<char>,
    pub state: MessageState,
    pub lock_until: Option<i64>,
    pub retry_count: int,
}

impl MessageView {
    /// A message as it is first created: ready, never retried, not locked.
    pub open spec fn created(id: u128, body: Seq<char>) -> MessageView {
        MessageView { id, body, state: MessageState::Ready, lock_until: None, retry_count: 0 }
    }

    /// The message once it is leased.
    pub open spec fn leased(self) -> MessageView {
        MessageView { state: MessageState::Processing, ..self }
    }

    /// The message once it is released for another attempt: ready again, with
    /// one more retry counted. The count stops at the largest `i32`.
    pub open spec fn retried(self) -> MessageView {
        MessageView {
            state: MessageState::Ready,
            retry_count: if self.retry_count < i32::MAX {
                self.retry_count + 1
            } else {
                self.retry_count
            },
            ..self
        }
    }
}

impl View for Message {
    type V = MessageView;

    open spec fn view(&self) -> MessageView {
        MessageView {
            id: self.id,
            body: self.body@,
            state: self.state,
            lock_until: self.lock_until,
            retry_count: self.retry_count as int,
        }
    }
}

impl Clone for Message {
    fn clone(&self) -> (copy: Self)
        ensures
            copy == *self,
    {
        Message {
            id: self.id,
            body: self.body.clone(),
            state: self.state,
            lock_until: self.lock_until,
            retry_count: self.retry_count,
        }
    }
}

impl Message {
    /// Creates a message with a new identifier.
    pub fn new(body: String) -> (msg: Message)
        ensures
            msg@ == MessageView::created(msg.id, body@),
            is_version_7(msg.id),
    {
        Message::with_id(fresh_id(), body)
    }

    /// Creates a message under a given identifier.
    pub fn with_id(id: u128, body: String) -> (msg: Message)
        ensures
            msg@ == MessageView::created(id, body@),
    {
        Message { id, body, state: MessageState::Ready, lock_until: None, retry_count: 0 }
    }
}

} // verus!
