//! The notification that Alchemy pushes for each new pending transaction.

use vstd::prelude::*;

verus! {

#[verifier::external_type_specification]
#[verifier::external_body]
pub struct ExTransaction(web3::types::Transaction);

/// `eth_subscription` notification carrying one pending transaction.
pub struct PendingTransactionSubscription {
    pub jsonrpc: String,
    pub method: String,
    pub params: PendingTransactionParams,
}

/// The subscription a notification belongs to, and its transaction
/// (the `result` member of the JSON text).
pub struct PendingTransactionParams {
    pub subscription: String,
    pub transaction: web3::types::Transaction,
}

} // verus!
