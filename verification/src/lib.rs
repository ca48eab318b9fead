//! The rules of a NovaMind node: addresses, request throttling, the hash chain,
//! mining, tasks, wallets and the replies that the node gives.
pub mod address;
pub mod amount;
pub mod answers;
pub mod chain;
mod clock;
pub mod digest;
pub mod mining;
pub mod peers;
pub mod reply;
pub mod rows;
pub mod staking;
pub mod status;
pub mod table;
pub mod tasks;
pub mod text;
pub mod throttle;
pub mod transactions;
pub mod wallet;
