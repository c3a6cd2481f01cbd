//! Output descriptors for pay-to-pubkey-hash, bare scripts and the legacy
//! federation peg-in script, with machine-checked contracts.

pub mod error;
pub mod text;
pub mod key;
pub mod checksum;
pub mod script;
pub mod pkh;
pub mod descriptor;
pub mod fragment;
pub mod satisfy;
pub mod engine;
pub mod pegin;
pub mod bare;
pub mod pegin_text;
