//! A single-node message queue: clients enqueue text messages, a consumer
//! leases a batch, and later acknowledges or releases what it leased.
//!
//! The storage engine, the service in front of it, the configuration and
//! the rules of the HTTP surface are verified against a mathematical model
//! of the queue, [`queue::QueueView`]; [`laws`] holds what is proved of that
//! model.

pub mod api;
pub mod config;
pub mod ident;
pub mod laws;
pub mod message;
pub mod queue;
pub mod service;
pub mod storage;

pub use config::{Config, LogLevel};
pub use message::{Message, MessageState, MessageView};
pub use service::{Error, MessageService};
