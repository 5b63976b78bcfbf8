//! The decision cores of the request handlers: everything a handler does
//! between reading its inputs and performing storage I/O.

pub mod events;
pub mod merges;
pub mod one_time_tokens;
pub mod timeline_events;
pub mod users;
pub mod timelines;
