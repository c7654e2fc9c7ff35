//! A live loop-recording engine: encoded audio chunks are turned into timed
//! payloads, and a recorder with a three-state machine captures them into a
//! bounded sliding window, handing out the finished loop.
pub mod capture;
pub mod payload;
pub mod recorder;
pub mod session;
