//! The queue service: it checks what a client hands in, then lets the
//! storage engine do the work and reports how it went.

use crate::config::Config;
use crate::ident::{fresh_id, is_version_7, parse_id, uuid_parse};
use crate::message::{Message, MessageView};
use crate::queue::{message_views, texts, QueueView};
use crate::storage::Storage;
use vstd::prelude::*;
use vstd::std_specs::convert::FromSpecImpl;
use vstd::utf8::encode_utf8;

verus! {

/// What can go wrong in the service.
#[derive(Debug)]
pub enum Error {
    /// The message body is larger than the configured maximum size.
    BodyTooLarge,
    /// No message IDs were provided for an operation that requires them.
    NoIds,
    /// An invalid message ID was provided.
    InvalidId(String),
    /// An error occurred in the storage layer.
    Store(String),
}

impl From<String> for Error {
    fn from(reason: String) -> (error: Error) {
        Error::Store(reason)
    }
}

impl FromSpecImpl<String> for Error {
    open spec fn obeys_from_spec() -> bool {
        true
    }

    open spec fn from_spec(reason: String) -> Error {
        Error::Store(reason)
    }
}

/// The length of a text in bytes, which is that of its UTF-8 encoding.
pub open spec fn byte_len(text: Seq<char>) -> nat {
    encode_utf8(text).len()
}

/// Whether a list of identifiers passes validation: it is not empty and
/// each of its texts is a well-formed identifier.
pub open spec fn acceptable(ids: Seq<Seq<char>>) -> bool {
    ids.len() > 0 && forall|i: int| 0 <= i < ids.len() ==> uuid_parse(#[trigger] ids[i]).is_some()
}

/// Whether the text at `at` is the first of a list that is no well-formed
/// identifier.
pub open spec fn first_malformed(ids: Seq<Seq<char>>, at: int) -> bool {
    &&& 0 <= at < ids.len()
    &&& uuid_parse(ids[at]).is_none()
    &&& forall|i: int| 0 <= i < at ==> uuid_parse(#[trigger] ids[i]).is_some()
}

/// The verdict on one identifier, given what parsing it gave.
pub fn check_id(text: &String, parsed: Option<u128>) -> (checked: Result<(), Error>)
    ensures
        parsed is Some ==> checked is Ok,
        parsed is None ==> (checked matches Err(Error::InvalidId(given)) && given@ == text@),
{
    match parsed {
        Some(_) => Ok(()),
        None => Err(Error::InvalidId(text.clone())),
    }
}

/// The business logic for interacting with the message queue, in front of a
/// storage backend.
pub struct MessageService<S: Storage> {
    store: S,
    max_message_size: usize,
}

impl<S: Storage> View for MessageService<S> {
    type V = QueueView;

    closed spec fn view(&self) -> QueueView {
        self.store.state()
    }
}

impl<S: Storage> MessageService<S> {
    /// The largest body, in bytes, that the service accepts.
    pub closed spec fn limit(&self) -> nat {
        self.max_message_size as nat
    }

    /// Creates a service in front of the given backend, which accepts
    /// bodies up to the message size of the configuration.
    pub fn new(store: S, config: &Config) -> (service: MessageService<S>)
        ensures
            service@ == store.state(),
            service.limit() == config.max_message_size,
    {
        MessageService { store, max_message_size: config.max_message_size }
    }

    /// Validates a list of identifiers: it must not be empty, and the first
    /// text in it that is no well-formed identifier is reported.
    pub fn validate_ids(ids: &Vec<String>) -> (checked: Result<(), Error>)
        ensures
            match checked {
                Ok(_) => acceptable(texts(ids@)),
                Err(Error::NoIds) => ids@.len() == 0,
                Err(Error::InvalidId(given)) => exists|at: int|
                    first_malformed(texts(ids@), at) && given@ == #[trigger] texts(ids@)[at],
                Err(_) => false,
            },
    {
        if ids.len() == 0 {
            return Err(Error::NoIds);
        }
        let mut i: usize = 0;
        while i < ids.len()
            invariant
                i <= ids.len(),
                forall|j: int| 0 <= j < i ==> uuid_parse(#[trigger] texts(ids@)[j]).is_some(),
            decreases ids.len() - i,
        {
            let parsed = parse_id(ids[i].as_str());
            assert(texts(ids@)[i as int] == ids[i as int]@);
            match check_id(&ids[i], parsed) {
                Ok(_) => {},
                Err(error) => {
                    assert(first_malformed(texts(ids@), i as int));
                    return Err(error);
                },
            }
            i += 1;
        }
        Ok(())
    }

    /// Adds a message with the given body to the queue and returns it, with
    /// the identifier that it was given.
    pub fn add(&mut self, body: String) -> (added: Result<Message, Error>)
        ensures
            final(self).limit() == old(self).limit(),
            match added {
                Ok(msg) => {
                    &&& byte_len(body@) <= old(self).limit()
                    &&& msg@ == MessageView::created(msg.id, body@)
                    &&& is_version_7(msg.id)
                    &&& final(self)@ == old(self)@.add(msg@)
                },
                Err(Error::BodyTooLarge) => byte_len(body@) > old(self).limit() && final(self)@ == old(
                    self,
                )@,
                Err(Error::Store(_)) => byte_len(body@) <= old(self).limit() && final(self)@ == old(
                    self,
                )@,
                Err(_) => false,
            },
            S::dependable() && byte_len(body@) <= old(self).limit() ==> added is Ok,
    {
        if body.as_str().as_bytes().len() > self.max_message_size {
            return Err(Error::BodyTooLarge);
        }
        self.add_with_id(fresh_id(), body)
    }

    /// Adds a message to the queue under an identifier that the caller
    /// brings, and returns it.
    pub fn add_with_id(&mut self, id: u128, body: String) -> (added: Result<Message, Error>)
        ensures
            final(self).limit() == old(self).limit(),
            match added {
                Ok(msg) => {
                    &&& byte_len(body@) <= old(self).limit()
                    &&& msg@ == MessageView::created(id, body@)
                    &&& final(self)@ == old(self)@.add(msg@)
                },
                Err(Error::BodyTooLarge) => byte_len(body@) > old(self).limit() && final(self)@ == old(
                    self,
                )@,
                Err(Error::Store(_)) => byte_len(body@) <= old(self).limit() && final(self)@ == old(
                    self,
                )@,
                Err(_) => false,
            },
            S::dependable() && byte_len(body@) <= old(self).limit() ==> added is Ok,
    {
        if body.as_str().as_bytes().len() > self.max_message_size {
            return Err(Error::BodyTooLarge);
        }
        let msg = Message::with_id(id, body);
        match self.store.add(msg.clone()) {
            Ok(_) => Ok(msg),
            Err(reason) => Err(Error::from(reason)),
        }
    }

    /// Leases up to `count` messages from the head of the queue.
    pub fn get(&mut self, count: usize) -> (leased: Result<Vec<Message>, Error>)
        ensures
            final(self).limit() == old(self).limit(),
            match leased {
                Ok(batch) => {
                    &&& message_views(batch@) == old(self)@.batch(count as nat)
                    &&& final(self)@ == old(self)@.lease(count as nat)
                },
                Err(Error::Store(_)) => final(self)@ == old(self)@,
                Err(_) => false,
            },
            S::dependable() ==> leased is Ok,
    {
        match self.store.get(count) {
            Ok(batch) => Ok(batch),
            Err(reason) => Err(Error::from(reason)),
        }
    }

    /// Acknowledges the leased messages that `ids` name, once the whole
    /// list has passed validation.
    pub fn delete(&mut self, ids: Vec<String>) -> (done: Result<(), Error>)
        ensures
            final(self).limit() == old(self).limit(),
            match done {
                Ok(_) => acceptable(texts(ids@)) && final(self)@ == old(self)@.delete(texts(ids@)),
                Err(Error::NoIds) => ids@.len() == 0 && final(self)@ == old(self)@,
                Err(Error::InvalidId(given)) => {
                    &&& exists|at: int|
                        first_malformed(texts(ids@), at) && given@ == #[trigger] texts(ids@)[at]
                    &&& final(self)@ == old(self)@
                },
                Err(Error::Store(_)) => acceptable(texts(ids@)) && final(self)@ == old(self)@,
                Err(Error::BodyTooLarge) => false,
            },
            S::dependable() && acceptable(texts(ids@)) ==> done is Ok,
    {
        match Self::validate_ids(&ids) {
            Ok(_) => {},
            Err(error) => {
                return Err(error);
            },
        }
        match self.store.delete(ids) {
            Ok(_) => Ok(()),
            Err(reason) => Err(Error::from(reason)),
        }
    }

    /// Empties the queue.
    pub fn purge(&mut self) -> (done: Result<(), Error>)
        ensures
            final(self).limit() == old(self).limit(),
            match done {
                Ok(_) => final(self)@ == old(self)@.purge(),
                Err(Error::Store(_)) => final(self)@ == old(self)@,
                Err(_) => false,
            },
            S::dependable() ==> done is Ok,
    {
        match self.store.purge() {
            Ok(_) => Ok(()),
            Err(reason) => Err(Error::from(reason)),
        }
    }

    /// Releases the leased messages that `ids` name to the tail of the
    /// queue, once the whole list has passed validation.
    pub fn retry(&mut self, ids: Vec<String>) -> (done: Result<(), Error>)
        ensures
            final(self).limit() == old(self).limit(),
            match done {
                Ok(_) => acceptable(texts(ids@)) && final(self)@ == old(self)@.retry(texts(ids@)),
                Err(Error::NoIds) => ids@.len() == 0 && final(self)@ == old(self)@,
                Err(Error::InvalidId(given)) => {
                    &&& exists|at: int|
                        first_malformed(texts(ids@), at) && given@ == #[trigger] texts(ids@)[at]
                    &&& final(self)@ == old(self)@
                },
                Err(Error::Store(_)) => acceptable(texts(ids@)) && final(self)@ == old(self)@,
                Err(Error::BodyTooLarge) => false,
            },
            S::dependable() && acceptable(texts(ids@)) ==> done is Ok,
    {
        match Self::validate_ids(&ids) {
            Ok(_) => {},
            Err(error) => {
                return Err(error);
            },
        }
        match self.store.retry(ids) {
            Ok(_) => Ok(()),
            Err(reason) => Err(Error::from(reason)),
        }
    }

    /// Shows up to `count` messages from the head of the queue; the queue
    /// stays as it is.
    pub fn peek(&self, count: usize) -> (shown: Result<Vec<Message>, Error>)
        ensures
            match shown {
                Ok(head) => message_views(head@) == self@.peek(count as nat),
                Err(Error::Store(_)) => true,
                Err(_) => false,
            },
            S::dependable() ==> shown is Ok,
    {
        match self.store.peek(count) {
            Ok(head) => Ok(head),
            Err(reason) => Err(Error::from(reason)),
        }
    }
}

} // verus!
