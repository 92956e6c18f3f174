//! Cross-chain governance: members submit proposals, vote with their token
//! balance at a snapshot block of an Ethereum-like ledger, and a closed
//! proposal is executed at most once by a signed EIP-1559 transaction.
//!
//! - `codec`: hex text, addresses and ABI call arguments.
//! - `natural`: unbounded naturals for weights, balances and heights.
//! - `governance`: the proposal store and its state machine.
//! - `signing`: transaction bytes, recovery parity, signed wire form.
//! - `interface`: values exchanged with the RPC and sign-in services.
//! - `gateway`: call data, the execution transaction, reading replies.

pub mod codec;
pub mod natural;
pub mod governance;
pub mod signing;
pub mod interface;
pub mod gateway;
