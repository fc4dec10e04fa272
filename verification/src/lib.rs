//! Minting-authority core of a cross-chain asset bridge.
//!
//! Every wrapped asset is identified by a twelve-byte external asset code.
//! The code, together with a configured namespace tag, determines the address
//! of the asset's authority record; the record is created once and tokens are
//! minted only against the address that the code derives.

pub mod address;
pub mod code;
pub mod derivation;
pub mod error;
pub mod instructions;
pub mod laws;
pub mod ledger;
pub mod program;
pub mod state;
pub mod table;

pub use crate::instructions::mint_wrapped_asset::MintWrappedAssetInstruction;
pub use crate::instructions::setup_mint_once::SetupMintOnceInstruction;
pub use crate::program::{mint_wrapped_asset, setup_mint};
