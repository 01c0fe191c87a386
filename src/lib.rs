//! Bridge between a script runtime and a long-running HTTP request: building
//! the outgoing request, ordering the callback events of one handle, and
//! deciding whether an event reaches the script side at all.
pub mod headers;
pub mod request;
pub mod outgoing;
pub mod events;
pub mod dispatch;
pub mod args;
