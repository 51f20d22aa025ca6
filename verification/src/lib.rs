//! Core of a container runtime: the data model, the wire framing, the
//! launcher's decisions and the state engine, free of any I/O.

pub mod cgroups;
pub mod client;
pub mod codec;
pub mod console;
pub mod error;
pub mod island;
pub mod model;
pub mod mount;
pub mod state;
pub mod text;
