//! A recorder of causal dataflow traces.
//!
//! Instrumented code reports the values it binds and the operations it
//! applies. The recorder files each of them as a node of a directed graph,
//! addressed by the invocation that produced it and by its place within that
//! invocation, and files each flow of a value into an operation as an edge.
//!
//! - [`trace`] says what a recorder holds and what each call makes of it.
//! - [`logger`] is the recorder itself, held to that description.
//! - [`history`] and [`laws`] state what holds of every sequence of calls.
//! - [`slot`] derives slot identifiers from keys, [`address`] the key under
//!   which an address is filed, and [`graph`] is the graph store.

pub mod address;
pub mod error;
pub mod graph;
pub mod history;
pub mod laws;
pub mod logger;
pub mod slot;
pub mod trace;

pub use error::RecorderError;
pub use history::Op;
pub use logger::Logger;
pub use slot::hash;
pub use trace::Trace;
