//! The exchange booth: a cell that names an administrator, two mints, a vault
//! for each of them and an oracle, and the handlers that set it up and move
//! tokens out of its vaults.

pub mod exchange;
pub mod initialize_exchange_booth;
pub mod instruction;
pub mod processor;
pub mod state;
pub mod vault;
pub mod withdraw;
