//! The `eth_subscribe` request for an address's pending transactions.

use vstd::prelude::*;
use std::sync::Arc;
use std::sync::atomic::AtomicU64;
use crate::json::{decimal, json_quote, push_json_string, push_json_u64};
use crate::block_util::{Address, address_debug_text};
use crate::alchemy_pending_transactions_messages::increment_and_return;

verus! {

/// Request to be notified of the pending transactions that involve an address.
#[derive(Debug, PartialEq)]
pub struct Subscribe {
    pub jsonrpc: String,
    pub id: u64,
    pub method: String,
    pub params: (String, SubscribeParams),
}

/// The filter of a subscription: the address watched.
#[derive(Debug, Clone, PartialEq)]
pub struct SubscribeParams {
    pub address: String,
}

/// The JSON text of a subscribe request, members in declaration order and the
/// parameter pair as a two-element array.
pub open spec fn subscribe_json(
    jsonrpc: Seq<char>,
    id: u64,
    method: Seq<char>,
    topic: Seq<char>,
    address: Seq<char>,
) -> Seq<char> {
    "{\"jsonrpc\":"@ + json_quote(jsonrpc) + ",\"id\":"@ + decimal(id as nat) + ",\"method\":"@
        + json_quote(method) + ",\"params\":["@ + json_quote(topic) + ",{\"address\":"@
        + json_quote(address) + "}]}"@
}

/// The request that `create_subscribe_pending_tx_string` writes for request
/// `id` and an address of bytes `address`.
pub open spec fn subscribe_request_text(id: u64, address: Seq<u8>) -> Seq<char> {
    subscribe_json(
        "2.0"@,
        id,
        "eth_subscribe"@,
        "alchemy_filteredNewFullPendingTransactions"@,
        address_debug_text(address),
    )
}

impl Subscribe {
    pub open spec fn json_text(&self) -> Seq<char> {
        subscribe_json(self.jsonrpc@, self.id, self.method@, self.params.0@, self.params.1.address@)
    }

    /// The message as JSON text.
    pub fn to_json(&self) -> (r: String)
        ensures
            r@ == self.json_text(),
    {
        let mut out = String::new();
        out.append("{\"jsonrpc\":");
        push_json_string(&mut out, self.jsonrpc.as_str());
        out.append(",\"id\":");
        push_json_u64(&mut out, self.id);
        out.append(",\"method\":");
        push_json_string(&mut out, self.method.as_str());
        out.append(",\"params\":[");
        push_json_string(&mut out, self.params.0.as_str());
        out.append(",{\"address\":");
        push_json_string(&mut out, self.params.1.address.as_str());
        out.append("}]}");
        assert(out@ =~= self.json_text());
        out
    }
}

/// Writes the request that subscribes to the pending transactions of `address`
/// under request id `id`.
pub fn write_subscribe_request(id: u64, address: Address) -> (r: String)
    ensures
        r@ == subscribe_request_text(id, address@),
{
    let address = address.debug_string();
    let result = Subscribe {
        id,
        method: String::from_str("eth_subscribe"),
        jsonrpc: String::from_str("2.0"),
        params: (
            String::from_str("alchemy_filteredNewFullPendingTransactions"),
            SubscribeParams { address },
        ),
    };
    result.to_json()
}

/// Takes the next request id from `request_id` and writes the request that
/// subscribes to the pending transactions of `address` under that id.
pub fn create_subscribe_pending_tx_string(request_id: Arc<AtomicU64>, address: Address) -> (r: (
    u64,
    String,
))
    ensures
        r.1@ == subscribe_request_text(r.0, address@),
{
    let new_request_id = increment_and_return(request_id);
    (new_request_id, write_subscribe_request(new_request_id, address))
}

} // verus!
