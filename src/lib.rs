//! Decision logic for renting a disposable phone number, waiting for the
//! first text message sent to it, and releasing it again.
pub mod provider;
pub mod delivery;
pub mod poller;
pub mod session;
pub mod trace;
