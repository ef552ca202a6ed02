//! Polls a remote event feed for a named repository, honouring the
//! server's rate-limit and cache-validation hints, and hands the caller
//! the envelopes of one requested kind.
//!
//! The scheduling, caching and filtering rules live here and are
//! verified; the HTTP transport and the async loop around them live in
//! the accompanying application crate.

pub mod event;
pub mod json;
pub mod scheduler;
pub mod text;

pub use event::DecodeError;
pub use event::Event;
pub use event::EventType;
pub use event::PushEvent;
pub use event::filter_events;
pub use event::parse_events;
pub use scheduler::ChangeDetector;
pub use scheduler::CycleStep;
pub use scheduler::PollResponse;
pub use scheduler::RequestPlan;
pub use text::parse_u64;
