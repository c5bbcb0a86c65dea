//! A small task-tracking service core: durable task records, an in-memory
//! store with the persistence contract, and the dispatcher that owns the
//! runnable queue and drives each task through its status machine.
//!
//! The modules are pure logic: all I/O (HTTP, the database, the event
//! channel) lives outside and feeds plain values in.

pub mod handlers;
pub mod laws;
pub mod rows;
pub mod store;
pub mod task;
pub mod tasks;
pub mod toast;
pub mod user;
