//! The logic of a small Bitcoin pool miner: what it reads from a pool, what it
//! hashes, when it submits a share, and what its dashboard shows.

pub mod address;
pub mod bytes;
pub mod dashboard;
pub mod demo;
pub mod display;
pub mod events;
pub mod hashing;
pub mod hexcode;
pub mod job;
pub mod json;
pub mod miner;
pub mod pools;
pub mod protocol;
pub mod session;
pub mod target;
pub mod text;
pub mod worker;
