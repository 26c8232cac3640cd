//! Supervision logic of a desktop shell that launches a local `dsh web`
//! server, waits until it answers HTTP, reports its status and tears it down.

pub mod cleanup;
pub mod dsh;
pub mod ports;
pub mod supervisor;
pub mod text;
pub mod workdir;
