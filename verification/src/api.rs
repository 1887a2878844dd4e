//! The rules of the HTTP surface: what each route hands to the service and
//! how it answers, as plain values. The transport itself is not here.

use crate::ident::is_version_7;
use crate::message::{Message, MessageView};
use crate::queue::{message_views, texts};
use crate::service::{acceptable, byte_len, first_malformed, Error, MessageService};
use crate::storage::Storage;
use vstd::prelude::*;
use vstd::string::*;

verus! {

/// The request of the route that adds a message.
#[derive(Debug)]
pub struct AddMessageRequest {
    pub body: String,
}

/// The request of the routes that lease or show messages.
#[derive(Debug)]
pub struct GetMessagesRequest {
    pub count: Option<usize>,
}

/// The request of the route that acknowledges messages.
#[derive(Debug)]
pub struct DeleteMessagesRequest {
    pub ids: Vec<String>,
}

/// The request of the route that releases messages.
#[derive(Debug)]
pub struct RetryMessagesRequest {
    pub ids: Vec<String>,
}

/// A failure as a route reports it: the client's fault, answered with
/// status 400, or the server's, answered with status 500, each with a
/// message for the reader.
#[derive(Debug)]
pub enum ApiError {
    BadRequest(String),
    InternalServerError(String),
}

/// What a route answers: a payload, or a failure.
pub type ApiResponse<T> = Result<T, ApiError>;

/// A failure with its message as a sequence of characters.
pub enum ApiErrorView {
    BadRequest(Seq<char>),
    InternalServerError(Seq<char>),
}

impl View for ApiError {
    type V = ApiErrorView;

    open spec fn view(&self) -> ApiErrorView {
        match self {
            ApiError::BadRequest(message) => ApiErrorView::BadRequest(message@),
            ApiError::InternalServerError(message) => ApiErrorView::InternalServerError(message@),
        }
    }
}

impl ApiErrorView {
    /// The status code of the failure.
    pub open spec fn status(self) -> int {
        match self {
            ApiErrorView::BadRequest(_) => 400,
            ApiErrorView::InternalServerError(_) => 500,
        }
    }

    /// How a route that only reaches the storage reports an error: what the
    /// storage said is the client's to read, anything else is the server's
    /// fault.
    pub open spec fn of_storage(error: Error) -> ApiErrorView {
        match error {
            Error::Store(reason) => ApiErrorView::BadRequest(reason@),
            _ => ApiErrorView::InternalServerError("Internal server error"@),
        }
    }

    /// How the route that adds a message reports an error.
    pub open spec fn of_add(error: Error) -> ApiErrorView {
        match error {
            Error::BodyTooLarge => ApiErrorView::BadRequest("Message body size is too large"@),
            _ => ApiErrorView::of_storage(error),
        }
    }

    /// How the routes that take a list of identifiers report an error.
    pub open spec fn of_ids(error: Error) -> ApiErrorView {
        match error {
            Error::NoIds => ApiErrorView::BadRequest("No message IDs provided"@),
            Error::InvalidId(id) => ApiErrorView::BadRequest("Invalid message ID: "@ + id@),
            _ => ApiErrorView::of_storage(error),
        }
    }
}

/// The number of messages that a request asks for: one, unless it says.
pub open spec fn asked(count: Option<usize>) -> nat {
    match count {
        Some(n) => n as nat,
        None => 1,
    }
}

/// Reports an error of a route that only reaches the storage.
pub fn storage_failure(error: Error) -> (failure: ApiError)
    ensures
        failure@ == ApiErrorView::of_storage(error),
{
    match error {
        Error::Store(reason) => ApiError::BadRequest(reason),
        _ => ApiError::InternalServerError("Internal server error".to_owned()),
    }
}

/// Reports an error of the route that adds a message.
pub fn add_failure(error: Error) -> (failure: ApiError)
    ensures
        failure@ == ApiErrorView::of_add(error),
{
    match error {
        Error::BodyTooLarge => ApiError::BadRequest("Message body size is too large".to_owned()),
        other => storage_failure(other),
    }
}

/// Reports an error of a route that takes a list of identifiers.
pub fn ids_failure(error: Error) -> (failure: ApiError)
    ensures
        failure@ == ApiErrorView::of_ids(error),
{
    match error {
        Error::NoIds => ApiError::BadRequest("No message IDs provided".to_owned()),
        Error::InvalidId(id) => ApiError::BadRequest(
            "Invalid message ID: ".to_owned().concat(id.as_str()),
        ),
        other => storage_failure(other),
    }
}

/// Answers the route that tells whether the service is there.
pub fn check() -> (reply: ApiResponse<String>)
    ensures
        reply matches Ok(text) && text@ == "Hello World"@,
{
    Ok("Hello World".to_owned())
}

/// Answers the route that adds a message.
pub fn add_message<S: Storage>(service: &mut MessageService<S>, request: AddMessageRequest) -> (reply:
    ApiResponse<Message>)
    ensures
        final(service).limit() == old(service).limit(),
        match reply {
            Ok(msg) => {
                &&& byte_len(request.body@) <= old(service).limit()
                &&& msg@ == MessageView::created(msg.id, request.body@)
                &&& is_version_7(msg.id)
                &&& final(service)@ == old(service)@.add(msg@)
            },
            Err(failure) => {
                &&& final(service)@ == old(service)@
                &&& failure@.status() == 400
                &&& byte_len(request.body@) > old(service).limit() ==> failure@
                    == ApiErrorView::BadRequest("Message body size is too large"@)
            },
        },
        S::dependable() ==> (reply is Ok <==> byte_len(request.body@) <= old(service).limit()),
{
    match service.add(request.body) {
        Ok(msg) => Ok(msg),
        Err(error) => Err(add_failure(error)),
    }
}

/// Answers the route that leases messages.
pub fn get_messages<S: Storage>(service: &mut MessageService<S>, request: GetMessagesRequest) -> (reply:
    ApiResponse<Vec<Message>>)
    ensures
        final(service).limit() == old(service).limit(),
        match reply {
            Ok(batch) => {
                &&& message_views(batch@) == old(service)@.batch(asked(request.count))
                &&& final(service)@ == old(service)@.lease(asked(request.count))
            },
            Err(failure) => final(service)@ == old(service)@ && failure@.status() == 400,
        },
        S::dependable() ==> reply is Ok,
{
    let count = match request.count {
        Some(n) => n,
        None => 1,
    };
    match service.get(count) {
        Ok(batch) => Ok(batch),
        Err(error) => Err(storage_failure(error)),
    }
}

/// Answers the route that acknowledges messages.
pub fn delete_messages<S: Storage>(
    service: &mut MessageService<S>,
    request: DeleteMessagesRequest,
) -> (reply: ApiResponse<String>)
    ensures
        final(service).limit() == old(service).limit(),
        match reply {
            Ok(text) => {
                &&& text@ == "Success"@
                &&& acceptable(texts(request.ids@))
                &&& final(service)@ == old(service)@.delete(texts(request.ids@))
            },
            Err(failure) => {
                &&& final(service)@ == old(service)@
                &&& failure@.status() == 400
                &&& request.ids@.len() == 0 ==> failure@ == ApiErrorView::BadRequest(
                    "No message IDs provided"@,
                )
                &&& forall|at: int| #[trigger]
                    first_malformed(texts(request.ids@), at) ==> failure@
                        == ApiErrorView::BadRequest(
                        "Invalid message ID: "@ + texts(request.ids@)[at],
                    )
            },
        },
        S::dependable() ==> (reply is Ok <==> acceptable(texts(request.ids@))),
{
    match service.delete(request.ids) {
        Ok(_) => Ok("Success".to_owned()),
        Err(error) => Err(ids_failure(error)),
    }
}

/// Answers the route that empties the queue.
pub fn purge_messages<S: Storage>(service: &mut MessageService<S>) -> (reply: ApiResponse<String>)
    ensures
        final(service).limit() == old(service).limit(),
        match reply {
            Ok(text) => text@ == "Success"@ && final(service)@ == old(service)@.purge(),
            Err(failure) => final(service)@ == old(service)@ && failure@.status() == 400,
        },
        S::dependable() ==> reply is Ok,
{
    match service.purge() {
        Ok(_) => Ok("Success".to_owned()),
        Err(error) => Err(storage_failure(error)),
    }
}

/// Answers the route that releases messages.
pub fn retry_messages<S: Storage>(
    service: &mut MessageService<S>,
    request: RetryMessagesRequest,
) -> (reply: ApiResponse<String>)
    ensures
        final(service).limit() == old(service).limit(),
        match reply {
            Ok(text) => {
                &&& text@ == "Success"@
                &&& acceptable(texts(request.ids@))
                &&& final(service)@ == old(service)@.retry(texts(request.ids@))
            },
            Err(failure) => {
                &&& final(service)@ == old(service)@
                &&& failure@.status() == 400
                &&& request.ids@.len() == 0 ==> failure@ == ApiErrorView::BadRequest(
                    "No message IDs provided"@,
                )
                &&& forall|at: int| #[trigger]
                    first_malformed(texts(request.ids@), at) ==> failure@
                        == ApiErrorView::BadRequest(
                        "Invalid message ID: "@ + texts(request.ids@)[at],
                    )
            },
        },
        S::dependable() ==> (reply is Ok <==> acceptable(texts(request.ids@))),
{
    match service.retry(request.ids) {
        Ok(_) => Ok("Success".to_owned()),
        Err(error) => Err(ids_failure(error)),
    }
}

/// Answers the route that shows messages.
pub fn peek_messages<S: Storage>(service: &MessageService<S>, request: GetMessagesRequest) -> (reply:
    ApiResponse<Vec<Message>>)
    ensures
        match reply {
            Ok(head) => message_views(head@) == service@.peek(asked(request.count)),
            Err(failure) => failure@.status() == 400,
        },
        S::dependable() ==> reply is Ok,
{
    let count = match request.count {
        Some(n) => n,
        None => 1,
    };
    match service.peek(count) {
        Ok(head) => Ok(head),
        Err(error) => Err(storage_failure(error)),
    }
}

} // verus!
