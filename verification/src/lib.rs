//! The decision logic of a hand-made asynchronous runtime: executors, timers,
//! a readiness selector and non-blocking TCP clients. Nothing here does I/O,
//! reads a clock or polls a future; a driver performs the actions that these
//! machines ask for and reports back what happened.

pub mod addr;
pub mod bell;
pub mod busy;
pub mod client;
pub mod driver;
pub mod executor;
pub mod flags;
pub mod parking;
pub mod poll;
pub mod reactor;
pub mod rota;
pub mod script;
pub mod selector;
pub mod spawn;
pub mod spinner;
pub mod tcp;
pub mod text;
pub mod timer;
pub mod wake;
