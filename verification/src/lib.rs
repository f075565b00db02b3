//! An in-memory state store for a minimal microblogging service.
//!
//! The store holds user profiles and an ordered collection of tweets, and
//! offers the write and read operations of the service: posting a tweet with
//! fan-out into follower timelines, liking, disliking and bookmarking, tag
//! search, and timeline assembly.  Every operation is a single atomic
//! transition of the pair of stores that either completes and yields one
//! event, or fails with a typed error and changes nothing.
//!
//! The enclosing host is expected to authenticate the caller and to persist
//! the store between calls; this crate only defines and verifies the
//! in-memory transition and the event contract.

pub mod interact;
pub mod laws;
pub mod pallet;
pub mod search;
pub mod text;
pub mod timeline;
pub mod types;
