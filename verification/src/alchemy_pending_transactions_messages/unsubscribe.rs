//! The `eth_unsubscribe` request that cancels a subscription.

use vstd::prelude::*;
use std::sync::Arc;
use std::sync::atomic::AtomicU64;
use crate::json::{decimal, json_quote, json_string_list, push_json_string, push_json_u64};
use crate::alchemy_pending_transactions_messages::increment_and_return;

verus! {

/// Request to cancel subscriptions, given by their ids.
#[derive(Debug, Clone, PartialEq)]
pub struct UnSubscribe {
    pub jsonrpc: String,
    pub id: u64,
    pub method: String,
    pub params: Vec<String>,
}

/// The JSON text of an unsubscribe request, members in declaration order.
pub open spec fn unsubscribe_json(
    jsonrpc: Seq<char>,
    id: u64,
    method: Seq<char>,
    params: Seq<Seq<char>>,
) -> Seq<char> {
    "{\"jsonrpc\":"@ + json_quote(jsonrpc) + ",\"id\":"@ + decimal(id as nat) + ",\"method\":"@
        + json_quote(method) + ",\"params\":["@ + json_string_list(params) + "]}"@
}

/// The request that `create_unsubscribe_pending_tx_string` writes for request
/// `id` and subscription `subscription_id`.
pub open spec fn unsubscribe_request_text(id: u64, subscription_id: Seq<char>) -> Seq<char> {
    unsubscribe_json("2.0"@, id, "eth_unsubscribe"@, seq![subscription_id])
}

/// The views of a list of strings.
pub open spec fn string_views(v: Seq<String>) -> Seq<Seq<char>> {
    v.map_values(|s: String| s@)
}

impl UnSubscribe {
    pub open spec fn json_text(&self) -> Seq<char> {
        unsubscribe_json(self.jsonrpc@, self.id, self.method@, string_views(self.params@))
    }

    /// The message as JSON text.
    pub fn to_json(&self) -> (r: String)
        ensures
            r@ == self.json_text(),
    {
        let mut out = String::new();
        out.append("{\"jsonrpc\":");
        push_json_string(&mut out, self.jsonrpc.as_str());
        out.append(",\"id\":");
        push_json_u64(&mut out, self.id);
        out.append(",\"method\":");
        push_json_string(&mut out, self.method.as_str());
        out.append(",\"params\":[");
        let ghost head = out@;
        let ghost items = string_views(self.params@);
        let n = self.params.len();
        let mut i: usize = 0;
        while i < n
            invariant
                n == self.params.len(),
                i <= n,
                items == string_views(self.params@),
                out@ == head + json_string_list(items.take(i as int)),
            decreases n - i,
        {
            if i > 0 {
                out.append(",");
            }
            push_json_string(&mut out, self.params[i].as_str());
            proof {
                let prev = items.take(i as int);
                let next = items.take(i + 1);
                assert(next.drop_last() =~= prev);
                assert(next.last() == self.params@[i as int]@);
                reveal_strlit(",");
                assert(out@ =~= head + json_string_list(next));
            }
            i = i + 1;
        }
        assert(items.take(n as int) =~= items);
        out.append("]}");
        assert(out@ =~= self.json_text());
        out
    }
}

/// Writes the request that cancels subscription `subscription_id` under
/// request id `id`.
pub fn write_unsubscribe_request(id: u64, subscription_id: String) -> (r: String)
    ensures
        r@ == unsubscribe_request_text(id, subscription_id@),
{
    let ghost sub = subscription_id@;
    let result = UnSubscribe {
        id,
        method: String::from_str("eth_unsubscribe"),
        jsonrpc: String::from_str("2.0"),
        params: vec![subscription_id],
    };
    assert(string_views(result.params@) =~= seq![sub]);
    result.to_json()
}

/// Takes the next request id from `request_id` and writes the request that
/// cancels subscription `subscription_id` under that id.
pub fn create_unsubscribe_pending_tx_string(request_id: Arc<AtomicU64>, subscription_id: String) -> (r: (
    u64,
    String,
))
    ensures
        r.1@ == unsubscribe_request_text(r.0, subscription_id@),
{
    let new_request_id = increment_and_return(request_id);
    (new_request_id, write_unsubscribe_request(new_request_id, subscription_id))
}

} // verus!
