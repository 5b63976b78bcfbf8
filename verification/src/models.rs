//! The persistent entities of the service, with their mathematical views.
//!
//! Every entity is a plain record; a `View` impl maps it to a ghost record
//! over `int`, `Seq<char>` and `Option<Seq<char>>`, which is what all
//! contracts in this crate speak about.

pub mod branch;
pub mod event;
pub mod merges;
pub mod timeline;
pub mod timeline_event;
pub mod universe;
pub mod user;
