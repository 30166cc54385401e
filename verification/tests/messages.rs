use std::sync::Arc;
use std::sync::atomic::{AtomicU64, Ordering};
use pending_eth_transactions::alchemy_pending_transactions_messages::{
    create_subscribe_pending_tx_string, create_unsubscribe_pending_tx_string, increment_and_return,
    next_request_id, parse_to_alchemy_message, AlchemyMessage, Subscribe, SubscribeParams,
    SubscribeResult, UnSubscribe, UnSubscribeResult, PendingTransactionSubscription,
    PendingTransactionParams, Transaction,
};
use pending_eth_transactions::block_util::convert_to_address;

#[test]
fn subscribe_serialize_json() {
    let result = Subscribe{
        id: 1,
        method: "eth_subscribe".to_string(),
        jsonrpc: "2.0".to_string(),
        params: ("alchemy_filteredNewFullPendingTransactions".to_string(), SubscribeParams { address: "0x7be8076f4ea4a4ad08075c2508e481d6c946d12b".to_string() })
    };
    let to_json = result.to_json();
    assert_eq!(to_json.as_str(), r#"{"jsonrpc":"2.0","id":1,"method":"eth_subscribe","params":["alchemy_filteredNewFullPendingTransactions",{"address":"0x7be8076f4ea4a4ad08075c2508e481d6c946d12b"}]}"#);
}

#[test]
fn create_subscribe_pending_tx() {
    let request_id: Arc<AtomicU64> = Arc::new(AtomicU64::new(0));
    let address = convert_to_address("0x7be8076f4ea4a4ad08075c2508e481d6c946d12b").unwrap();
    let (request_id, to_json) = create_subscribe_pending_tx_string(request_id, address);
    assert_eq!(to_json.as_str(), r#"{"jsonrpc":"2.0","id":1,"method":"eth_subscribe","params":["alchemy_filteredNewFullPendingTransactions",{"address":"0x7be8076f4ea4a4ad08075c2508e481d6c946d12b"}]}"#);
    assert_eq!(request_id, 1);
}

#[test]
fn subscribe_result_serialize_json() {
    let result = SubscribeResult {
        id: 123,
        subscription_id: "0xc1111111222222223333334444445555".to_string(),
        jsonrpc: "2.0".to_string()
    };
    let from_json = result.to_json();
    assert_eq!(r#"{"id":123,"result":"0xc1111111222222223333334444445555","jsonrpc":"2.0"}"#, from_json.as_str());
}

#[test]
fn unsubscribe_serialize_json() {
    let result = UnSubscribe{
        id: 6,
        method: "eth_unsubscribe".to_string(),
        jsonrpc: "2.0".to_string(),
        params: vec![String::from("0x11111111111111111111111111111111")]
    };
    let to_json = result.to_json();
    assert_eq!(to_json.as_str(), r#"{"jsonrpc":"2.0","id":6,"method":"eth_unsubscribe","params":["0x11111111111111111111111111111111"]}"#);
}

#[test]
fn create_unsubscribe_pending_tx() {
    let request_id: Arc<AtomicU64> = Arc::new(AtomicU64::new(0));
    let subscription_id = String::from("0x1a6ffa66f906bc88438bbf40593f4065");
    let (request_id, to_json) = create_unsubscribe_pending_tx_string(request_id, subscription_id);
    assert_eq!(to_json.as_str(), r#"{"jsonrpc":"2.0","id":1,"method":"eth_unsubscribe","params":["0x1a6ffa66f906bc88438bbf40593f4065"]}"#);
    assert_eq!(request_id, 1);
}

#[test]
fn unsubscribe_result_serialize_json() {
    let result = UnSubscribeResult {
        id: 123,
        jsonrpc: "2.0".to_string(),
        success: true
    };
    let from_json = result.to_json();
    assert_eq!(r#"{"jsonrpc":"2.0","id":123,"result":true}"#, from_json.as_str());
}

#[test]
fn unsubscribe_result_false_serializes_false() {
    let result = UnSubscribeResult { id: 5, jsonrpc: "2.0".to_string(), success: false };
    assert_eq!(result.to_json(), r#"{"jsonrpc":"2.0","id":5,"result":false}"#);
}

#[test]
fn unsubscribe_with_no_or_several_params() {
    let none = UnSubscribe { id: 0, method: "m".to_string(), jsonrpc: "2.0".to_string(), params: vec![] };
    assert_eq!(none.to_json(), r#"{"jsonrpc":"2.0","id":0,"method":"m","params":[]}"#);
    let two = UnSubscribe {
        id: 18446744073709551615,
        method: "m".to_string(),
        jsonrpc: "2.0".to_string(),
        params: vec!["a".to_string(), "b".to_string()],
    };
    assert_eq!(two.to_json(), r#"{"jsonrpc":"2.0","id":18446744073709551615,"method":"m","params":["a","b"]}"#);
}

#[test]
fn json_strings_are_escaped() {
    let result = SubscribeResult {
        id: 7,
        subscription_id: "a\"b\\c\nd\u{1}e\u{7f}é".to_string(),
        jsonrpc: "\t\r\u{8}\u{c}".to_string(),
    };
    assert_eq!(result.to_json(), "{\"id\":7,\"result\":\"a\\\"b\\\\c\\nd\\u0001e\u{7f}é\",\"jsonrpc\":\"\\t\\r\\b\\f\"}");
}

#[test]
fn request_ids_count_up_from_the_shared_counter() {
    let counter = Arc::new(AtomicU64::new(41));
    assert_eq!(increment_and_return(counter.clone()), 42);
    assert_eq!(increment_and_return(counter.clone()), 43);
    assert_eq!(counter.load(Ordering::Relaxed), 43);
    let (id, text) = create_unsubscribe_pending_tx_string(counter.clone(), "x".to_string());
    assert_eq!(id, 44);
    assert_eq!(text, r#"{"jsonrpc":"2.0","id":44,"method":"eth_unsubscribe","params":["x"]}"#);
}

#[test]
fn request_id_after_the_largest_starts_again_at_zero() {
    assert_eq!(next_request_id(5), 6);
    assert_eq!(next_request_id(u64::MAX), 0);
    let counter = Arc::new(AtomicU64::new(u64::MAX));
    assert_eq!(increment_and_return(counter.clone()), 0);
}

fn subscribe_result(id: u64) -> SubscribeResult {
    SubscribeResult { id, subscription_id: "0xabc".to_string(), jsonrpc: "2.0".to_string() }
}

fn unsubscribe_result(id: u64) -> UnSubscribeResult {
    UnSubscribeResult { id, jsonrpc: "2.0".to_string(), success: true }
}

fn notification() -> PendingTransactionSubscription {
    PendingTransactionSubscription {
        jsonrpc: "2.0".to_string(),
        method: "eth_subscription".to_string(),
        params: PendingTransactionParams { subscription: "0xabc".to_string(), transaction: Transaction::default() },
    }
}

#[test]
fn parse_prefers_pending_transaction_then_unsubscribe_then_subscribe() {
    let m = parse_to_alchemy_message("t".to_string(), Some(notification()), Some(unsubscribe_result(1)), Some(subscribe_result(2)));
    assert!(matches!(m, AlchemyMessage::PendingTransactionSubscription(_)));
    let m = parse_to_alchemy_message("t".to_string(), None, Some(unsubscribe_result(1)), Some(subscribe_result(2)));
    assert!(matches!(m, AlchemyMessage::UnSubscribeResult(UnSubscribeResult { id: 1, .. })));
    let m = parse_to_alchemy_message("t".to_string(), None, None, Some(subscribe_result(2)));
    assert!(matches!(m, AlchemyMessage::SubscribeResult(SubscribeResult { id: 2, .. })));
    let m = parse_to_alchemy_message("not json".to_string(), None, None, None);
    match m {
        AlchemyMessage::Unknown(text) => assert_eq!(text, "not json"),
        _ => panic!("expected an unknown message"),
    }
}
