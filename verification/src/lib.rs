//! Record identity and persistence consistency for competition metadata.
//!
//! Teams are identified by a number that the competition organizers assign,
//! tournaments by an identifier minted from a counter in the document store.
//! This crate holds the rules of the four service operations (create and fetch
//! a team, create and fetch a tournament) and the codecs between wire input,
//! canonical records and stored documents. It performs no I/O: an operation
//! is a value that says what to ask of the store next, and the caller does
//! the asking.
//!
//! ```text
//! let mut step = team::new_team(&submission);
//! let outcome = loop {
//!     match step {
//!         TeamStep::Done(outcome) => break outcome,
//!         TeamStep::Ask(request, pending) => {
//!             let reply = store.perform(request);
//!             step = team::resume_team(pending, reply);
//!         }
//!     }
//! };
//! ```
//!
//! Every function states what it returns over the mathematical value of its
//! arguments. What an operation achieves over its round-trips is stated
//! against [`store::StoreModel`], the behaviour of a store that works: a team
//! created is found again, a taken number is refused and changes nothing, and
//! tournaments created side by side never share an identifier.

pub mod codec;
pub mod decimal;
pub mod document;
pub mod errors;
pub mod interleaving;
pub mod models;
pub mod sequence;
pub mod store;
pub mod team;
pub mod tournament;
