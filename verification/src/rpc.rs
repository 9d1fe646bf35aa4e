//! Remote control of a simulation: the messages of the control service, the
//! conversions between the times of the service and those of the
//! simulation, and the request handlers.
pub mod codes;
pub mod convert;
pub mod generic_server;
pub mod messages;
