//! Talking to the devices through their receivers.

pub mod client;
pub mod exchange;
pub mod protocol;
pub mod receiver;
pub mod scanner;
