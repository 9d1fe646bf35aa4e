//! Core of a discrete-event simulation runtime built around the actor model.
//!
//! The crate holds the deterministic heart of the runtime as verified state
//! machines: the logical clock, the time-ordered scheduler queue, the
//! generational registry of cancellation keys, the simulation driver that
//! cuts the queue into time slices, the bookkeeping of the cooperative
//! executor, the mailboxes of the models, the endpoint registry and the
//! request handlers of the remote control service.
//!
//! Everything that suspends, polls a future or touches a transport lives
//! outside of this crate: the embedding program runs the tasks that the
//! driver hands out and reports back what happened.
pub mod endpoints;
pub mod executor;
pub mod key_registry;
pub mod mailbox;
pub mod rpc;
pub mod scheduler_queue;
pub mod sim_init;
pub mod simulation;
pub mod time;
