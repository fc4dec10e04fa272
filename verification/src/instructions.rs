//! The two operations of the bridge, each with the accounts it is given.

pub mod mint_wrapped_asset;
pub mod setup_mint_once;
