//! The JSON-RPC messages exchanged with Alchemy's websocket endpoint.

use vstd::prelude::*;
use std::sync::Arc;
use std::sync::atomic::{AtomicU64, Ordering};

pub mod subscribe;
pub use subscribe::{Subscribe, SubscribeParams, create_subscribe_pending_tx_string, write_subscribe_request};

pub mod subscribe_result;
pub use subscribe_result::SubscribeResult;

pub mod pending_transaction;
pub use pending_transaction::{PendingTransactionSubscription, PendingTransactionParams};
pub use web3::types::Transaction;

pub mod unsubscribe;
pub use unsubscribe::{UnSubscribe, create_unsubscribe_pending_tx_string, write_unsubscribe_request};

pub mod unsubscribe_result;
pub use unsubscribe_result::UnSubscribeResult;

verus! {

/// The request id that follows `last`; past `u64::MAX` the count starts again at 0,
/// as the unchecked `+ 1` of a release build does.
pub open spec fn next_id(last: u64) -> u64 {
    if last == u64::MAX {
        0
    } else {
        (last + 1) as u64
    }
}

/// The request id that follows `last`.
pub fn next_request_id(last: u64) -> (r: u64)
    ensures
        r == next_id(last),
{
    if last == u64::MAX {
        0
    } else {
        last + 1
    }
}

/// Takes the next request id from the shared counter in one atomic step: adds
/// one to it (wrapping past `u64::MAX`, as `fetch_add` does) and returns the
/// new value, which is `next_request_id` of what the counter held.
/// The counter is shared between tasks, so what it held is known to nobody
/// here: the returned id is stated only by `next_request_id`.
pub fn increment_and_return(request_id: Arc<AtomicU64>) -> u64 {
    let last_request_id = request_id.fetch_add(1, Ordering::Relaxed);
    next_request_id(last_request_id)
}

/// A message received from Alchemy, by what it could be read as.
pub enum AlchemyMessage {
    SubscribeResult(SubscribeResult),
    UnSubscribeResult(UnSubscribeResult),
    PendingTransactionSubscription(PendingTransactionSubscription),
    Unknown(String),
}

/// Classifies the text `json` of a received message, given what it reads as
/// under each of the three message shapes (`None` where it does not). A pending
/// transaction notification is preferred, then an unsubscribe result, then a
/// subscribe result; text that is none of them is kept as `Unknown`.
pub fn parse_to_alchemy_message(
    json: String,
    as_pending_transaction: Option<PendingTransactionSubscription>,
    as_unsubscribe_result: Option<UnSubscribeResult>,
    as_subscribe_result: Option<SubscribeResult>,
) -> (r: AlchemyMessage)
    ensures
        match as_pending_transaction {
            Some(p) => r == AlchemyMessage::PendingTransactionSubscription(p),
            None => match as_unsubscribe_result {
                Some(u) => r == AlchemyMessage::UnSubscribeResult(u),
                None => match as_subscribe_result {
                    Some(s) => r == AlchemyMessage::SubscribeResult(s),
                    None => r == AlchemyMessage::Unknown(json),
                },
            },
        },
{
    if let Some(p) = as_pending_transaction {
        return AlchemyMessage::PendingTransactionSubscription(p);
    }
    if let Some(u) = as_unsubscribe_result {
        return AlchemyMessage::UnSubscribeResult(u);
    }
    if let Some(s) = as_subscribe_result {
        return AlchemyMessage::SubscribeResult(s);
    }
    AlchemyMessage::Unknown(json)
}

} // verus!
