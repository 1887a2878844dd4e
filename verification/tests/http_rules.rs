use smql::api::{
    add_failure, add_message, check, delete_messages, get_messages, ids_failure, peek_messages,
    purge_messages, retry_messages, storage_failure, AddMessageRequest, ApiError,
    DeleteMessagesRequest, GetMessagesRequest, RetryMessagesRequest,
};
use smql::storage::MemoryStorage;
use smql::{Config, Error, MessageService, MessageState};
use uuid::Uuid;

fn service_with_limit(limit: usize) -> MessageService<MemoryStorage> {
    let config = Config { port: 1, max_message_size: limit, log_level: "info".to_string() };
    MessageService::new(MemoryStorage::new(), &config)
}

fn text_of(id: u128) -> String {
    Uuid::from_u128(id).to_string()
}

fn bad_request(failure: ApiError) -> String {
    match failure {
        ApiError::BadRequest(message) => message,
        other => panic!("unexpected: {other:?}"),
    }
}

fn server_error(failure: ApiError) -> String {
    match failure {
        ApiError::InternalServerError(message) => message,
        other => panic!("unexpected: {other:?}"),
    }
}

#[test]
fn check_says_hello() {
    assert_eq!(check().unwrap(), "Hello World");
}

#[test]
fn add_message_returns_the_message() {
    let mut service = service_with_limit(16);
    let msg = add_message(&mut service, AddMessageRequest { body: "job".to_string() }).unwrap();
    assert_eq!(msg.body, "job");
    assert_eq!(msg.state, MessageState::Ready);
    assert_eq!(msg.retry_count, 0);
}

#[test]
fn add_message_reports_a_body_that_is_too_large() {
    let mut service = service_with_limit(2);
    let failure = add_message(&mut service, AddMessageRequest { body: "job".to_string() });
    assert_eq!(bad_request(failure.unwrap_err()), "Message body size is too large");
    let shown = peek_messages(&service, GetMessagesRequest { count: Some(5) }).unwrap();
    assert!(shown.is_empty());
}

#[test]
fn get_messages_leases_one_by_default() {
    let mut service = service_with_limit(16);
    for body in ["a", "b", "c"] {
        add_message(&mut service, AddMessageRequest { body: body.to_string() }).unwrap();
    }
    let leased = get_messages(&mut service, GetMessagesRequest { count: None }).unwrap();
    assert_eq!(leased.len(), 1);
    assert_eq!(leased[0].body, "a");
    assert_eq!(leased[0].state, MessageState::Processing);
    let leased = get_messages(&mut service, GetMessagesRequest { count: Some(5) }).unwrap();
    assert_eq!(leased.len(), 2);
    let leased = get_messages(&mut service, GetMessagesRequest { count: Some(0) }).unwrap();
    assert!(leased.is_empty());
}

#[test]
fn peek_messages_shows_one_by_default() {
    let mut service = service_with_limit(16);
    for body in ["a", "b"] {
        add_message(&mut service, AddMessageRequest { body: body.to_string() }).unwrap();
    }
    let shown = peek_messages(&service, GetMessagesRequest { count: None }).unwrap();
    assert_eq!(shown.len(), 1);
    assert_eq!(shown[0].body, "a");
    assert_eq!(shown[0].state, MessageState::Ready);
    let shown = peek_messages(&service, GetMessagesRequest { count: Some(2) }).unwrap();
    assert_eq!(shown.len(), 2);
}

#[test]
fn delete_messages_answers_success() {
    let mut service = service_with_limit(16);
    let msg = add_message(&mut service, AddMessageRequest { body: "a".to_string() }).unwrap();
    get_messages(&mut service, GetMessagesRequest { count: None }).unwrap();
    let reply = delete_messages(&mut service, DeleteMessagesRequest { ids: vec![text_of(msg.id)] });
    assert_eq!(reply.unwrap(), "Success");
    let reply = retry_messages(&mut service, RetryMessagesRequest { ids: vec![text_of(msg.id)] });
    assert_eq!(reply.unwrap(), "Success");
    assert!(peek_messages(&service, GetMessagesRequest { count: None }).unwrap().is_empty());
}

#[test]
fn delete_messages_reports_bad_lists() {
    let mut service = service_with_limit(16);
    let reply = delete_messages(&mut service, DeleteMessagesRequest { ids: Vec::new() });
    assert_eq!(bad_request(reply.unwrap_err()), "No message IDs provided");
    let reply = delete_messages(
        &mut service,
        DeleteMessagesRequest { ids: vec![text_of(1), "xyz".to_string(), "abc".to_string()] },
    );
    assert_eq!(bad_request(reply.unwrap_err()), "Invalid message ID: xyz");
}

#[test]
fn retry_messages_releases_and_reports_bad_lists() {
    let mut service = service_with_limit(16);
    let msg = add_message(&mut service, AddMessageRequest { body: "a".to_string() }).unwrap();
    get_messages(&mut service, GetMessagesRequest { count: None }).unwrap();
    let reply = retry_messages(&mut service, RetryMessagesRequest { ids: Vec::new() });
    assert_eq!(bad_request(reply.unwrap_err()), "No message IDs provided");
    let reply = retry_messages(&mut service, RetryMessagesRequest { ids: vec!["".to_string()] });
    assert_eq!(bad_request(reply.unwrap_err()), "Invalid message ID: ");
    assert!(peek_messages(&service, GetMessagesRequest { count: None }).unwrap().is_empty());
    let reply = retry_messages(&mut service, RetryMessagesRequest { ids: vec![text_of(msg.id)] });
    assert_eq!(reply.unwrap(), "Success");
    let shown = peek_messages(&service, GetMessagesRequest { count: None }).unwrap();
    assert_eq!(shown[0].retry_count, 1);
}

#[test]
fn purge_messages_answers_success() {
    let mut service = service_with_limit(16);
    add_message(&mut service, AddMessageRequest { body: "a".to_string() }).unwrap();
    assert_eq!(purge_messages(&mut service).unwrap(), "Success");
    assert!(peek_messages(&service, GetMessagesRequest { count: Some(9) }).unwrap().is_empty());
}

#[test]
fn storage_failure_of_each_error() {
    assert_eq!(bad_request(storage_failure(Error::Store("full".to_string()))), "full");
    assert_eq!(server_error(storage_failure(Error::BodyTooLarge)), "Internal server error");
    assert_eq!(server_error(storage_failure(Error::NoIds)), "Internal server error");
    assert_eq!(
        server_error(storage_failure(Error::InvalidId("x".to_string()))),
        "Internal server error"
    );
}

#[test]
fn add_failure_of_each_error() {
    assert_eq!(bad_request(add_failure(Error::BodyTooLarge)), "Message body size is too large");
    assert_eq!(bad_request(add_failure(Error::Store("full".to_string()))), "full");
    assert_eq!(server_error(add_failure(Error::NoIds)), "Internal server error");
    assert_eq!(
        server_error(add_failure(Error::InvalidId("x".to_string()))),
        "Internal server error"
    );
}

#[test]
fn ids_failure_of_each_error() {
    assert_eq!(bad_request(ids_failure(Error::NoIds)), "No message IDs provided");
    assert_eq!(
        bad_request(ids_failure(Error::InvalidId("x y".to_string()))),
        "Invalid message ID: x y"
    );
    assert_eq!(bad_request(ids_failure(Error::Store("full".to_string()))), "full");
    assert_eq!(server_error(ids_failure(Error::BodyTooLarge)), "Internal server error");
}
