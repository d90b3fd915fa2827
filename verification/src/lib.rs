//! A multi-token ledger: balances per token id and account, and operator
//! approvals, with checked transfers.

pub mod erc1155;
pub mod laws;
pub mod model;
pub mod primitives;
pub mod table;

pub use erc1155::{Erc1155, Erc1155Error, Erc1155Event};
pub use primitives::{Address, U256};
