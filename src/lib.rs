//! A ledger of multi-signature wallets: shared-custody wallets that need a
//! threshold of owner approvals, and the transactions proposed against them.
//!
//! The host ledger supplies what this crate cannot compute itself: the block
//! height, the time, and a fresh identifier for each new wallet. They come in
//! as plain values.

pub mod types;
pub mod owners;
pub mod ledger;
pub mod laws;
