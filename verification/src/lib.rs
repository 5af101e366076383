//! Consumer side of an Apache Pulsar client: message delivery, batching, negative
//! acknowledgement, multi-topic subscription and broker lookup, as verified state machines.
//!
//! Nothing in this crate talks to a broker. What the network decides is an argument of a verified
//! function, and every request to the broker is a value that one returns. A function that reads a
//! clock or draws a random number says in its contract what it does with the answer, whatever it is.
pub mod batch;
pub mod bits;
pub mod builder;
pub mod codec;
pub mod consumer;
pub mod consumer_laws;
pub mod consumer_set;
pub mod error;
pub mod message;
pub mod multi;
pub mod multi_laws;
pub mod nack;
pub mod nack_batches;
pub mod operation_laws;
pub mod options;
pub mod pattern;
pub mod poll;
pub mod refresh;
pub mod request;
pub mod service_discovery;
pub mod text;
pub mod text_list;
pub mod time;
