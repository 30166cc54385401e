//! The answer to an `eth_unsubscribe` request.

use vstd::prelude::*;
use crate::json::{decimal, json_bool, json_quote, push_json_bool, push_json_string, push_json_u64};

verus! {

/// Answer to an unsubscribe request: the request's id and whether the
/// subscription was cancelled (the `result` member of the JSON text).
#[derive(Debug, Clone, PartialEq)]
pub struct UnSubscribeResult {
    pub jsonrpc: String,
    pub id: u64,
    pub success: bool,
}

/// The JSON text of an unsubscribe result, members in declaration order.
pub open spec fn unsubscribe_result_json(jsonrpc: Seq<char>, id: u64, success: bool) -> Seq<char> {
    "{\"jsonrpc\":"@ + json_quote(jsonrpc) + ",\"id\":"@ + decimal(id as nat) + ",\"result\":"@
        + json_bool(success) + "}"@
}

impl UnSubscribeResult {
    pub open spec fn json_text(&self) -> Seq<char> {
        unsubscribe_result_json(self.jsonrpc@, self.id, self.success)
    }

    /// The message as JSON text.
    pub fn to_json(&self) -> (r: String)
        ensures
            r@ == self.json_text(),
    {
        let mut out = String::new();
        out.append("{\"jsonrpc\":");
        push_json_string(&mut out, self.jsonrpc.as_str());
        out.append(",\"id\":");
        push_json_u64(&mut out, self.id);
        out.append(",\"result\":");
        push_json_bool(&mut out, self.success);
        out.append("}");
        assert(out@ =~= self.json_text());
        out
    }
}

} // verus!
