//! A caching proxy core for a map-metadata service.
//!
//! Two state machines do the work. The request governor
//! ([`request_manager`]) queues upstream requests, lets them through a
//! fixed-window rate limiter and a concurrency budget, and settles what a
//! response means. The load-through cache ([`cache`]) keeps records under
//! their content hashes and under their id for a day, loads a key once
//! however many callers ask for it, and warms one keyspace from the other.
//! The HTTP surface ([`webserver`]) decides what each route answers.
//!
//! Nothing here reads a clock, sleeps or touches the network. The owner of a
//! [`cache::MapCache`] hands it the current time in nanoseconds with every
//! call, sends the requests it is told to send, and comes back with what
//! happened. Every transition has a contract over the views in these
//! modules, and what the machines guarantee over whole runs is proved beside
//! them.

pub mod cache;
pub mod hex;
pub mod models;
pub mod request_manager;
pub mod transport;
pub mod webserver;
