//! Offline recovery of a WPA2 passphrase from a captured PMKID.
//!
//! The library normalizes the captured network parameters, materializes a
//! wordlist, tests each candidate passphrase against the target PMKID and
//! describes the events of a cracking run together with the rule by which a
//! consumer turns those events into a final outcome.

pub mod base16;
pub mod bytes;
pub mod candidates;
pub mod consumer;
pub mod engine;
pub mod error;
pub mod events;
pub mod netfile;
pub mod network;
pub mod outcome;
pub mod pmkid;
pub mod report;
