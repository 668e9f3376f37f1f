//! The verified core of a small reactor.
//!
//! - [`buffer`] and [`endian`]: byte buffers, and integers in network order.
//! - [`slots`] and [`timer`]: a keyed store, and a hashed timer wheel on top of it.
//! - [`readiness`], [`queue`] and [`event_loop`]: what the poller is asked for and
//!   reports, the queue of messages, and what an event loop does next.
//! - [`tcp_connection`] and [`tcp_server`]: connections and their dispatchers.
//! - [`event_loop_thread_pool`], [`connector`], [`acceptor`] and [`service`]: what runs on
//!   which thread, and what listeners and services do about their events.
//! - [`ex`]: connections as explicit state machines.
//!
//! Sockets, the poller and threads are not here. Each function that decides something
//! about them takes what they reported and returns what is to be done.
//!
//! The modules whose names end in `_laws` prove what the operations are for, and what holds
//! over several of them. What those laws say of relations is tied to the operations
//! themselves in [`operations_laws`], and when they can be called in [`calls_laws`].

pub mod acceptor;
pub mod buffer;
pub mod buffer_laws;
pub mod calls_laws;
pub mod connector;
pub mod endian;
pub mod event_loop;
pub mod event_loop_laws;
pub mod event_loop_thread_pool;
pub mod ex;
pub mod operations_laws;
pub mod queue;
pub mod readiness;
pub mod readiness_laws;
pub mod service;
pub mod slots;
pub mod tcp_connection;
pub mod tcp_connection_laws;
pub mod tcp_server;
pub mod tcp_server_laws;
pub mod timer;
pub mod timer_laws;
