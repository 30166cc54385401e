//! The answer to an `eth_subscribe` request.

use vstd::prelude::*;
use crate::json::{decimal, json_bool, json_quote, push_json_bool, push_json_string, push_json_u64};

verus! {

/// Answer to a subscribe request: the request's id and the id of the new
/// subscription (the `result` member of the JSON text).
#[derive(Debug, Clone, PartialEq)]
pub struct SubscribeResult {
    pub id: u64,
    pub subscription_id: String,
    pub jsonrpc: String,
}

/// The JSON text of a subscribe result, members in declaration order.
pub open spec fn subscribe_result_json(id: u64, subscription_id: Seq<char>, jsonrpc: Seq<char>) -> Seq<char> {
    "{\"id\":"@ + decimal(id as nat) + ",\"result\":"@ + json_quote(subscription_id)
        + ",\"jsonrpc\":"@ + json_quote(jsonrpc) + "}"@
}

impl SubscribeResult {
    pub open spec fn json_text(&self) -> Seq<char> {
        subscribe_result_json(self.id, self.subscription_id@, self.jsonrpc@)
    }

    /// The message as JSON text.
    pub fn to_json(&self) -> (r: String)
        ensures
            r@ == self.json_text(),
    {
        let mut out = String::new();
        out.append("{\"id\":");
        push_json_u64(&mut out, self.id);
        out.append(",\"result\":");
        push_json_string(&mut out, self.subscription_id.as_str());
        out.append(",\"jsonrpc\":");
        push_json_string(&mut out, self.jsonrpc.as_str());
        out.append("}");
        assert(out@ =~= self.json_text());
        out
    }
}

} // verus!
