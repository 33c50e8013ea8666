//! Wallet and NFT tooling for user-configured chains.
//!
//! - `codec`: fixed-point balances as trimmed decimal text.
//! - `address`: the syntax of wallet addresses.
//! - `settings`: the chain and wallet lists.
//! - `client`: one chain's RPC endpoint and the cell a balance answer makes.
//! - `aggregator`: balance queries over every wallet and chain, with
//!   generation-guarded recording of answers.
//! - `wallet_balance`: the balance screen's state.
//! - `contracts`: watched token contracts and ERC-721 `balanceOf` calls.
//! - `metadata`: NFT metadata forms and their export.
//! - `backend`: the shared state of the upload service.

pub mod address;
pub mod aggregator;
pub mod backend;
pub mod client;
pub mod codec;
pub mod contracts;
pub mod metadata;
pub mod settings;
pub mod wallet_balance;
