//! A single-settlement deferred-value primitive.
//!
//! A promise starts out pending and is settled exactly once, either fulfilled
//! with an optional textual payload or rejected with an optional reason.
//! Continuations registered while the promise is pending run in registration
//! order when it settles, each feeding its output payload to the next;
//! continuations registered after settlement run immediately against the
//! stored payload. The combinator merges a whole sequence of promises into
//! one already-settled promise, short-circuiting on the first rejection by
//! input position.

pub mod combine;
pub mod promise;
pub mod state;
pub mod transform;

pub use combine::first_reject;
pub use combine::fulfilled_texts;
pub use combine::join_texts;
pub use promise::Handler;
pub use promise::Promise;
pub use promise::lemma_run_handlers_append;
pub use promise::lemma_run_handlers_no_match;
pub use promise::run_handlers;
pub use state::SettleError;
pub use state::State;
pub use state::opt_view;
pub use transform::TextTransform;
pub use transform::Transform;
