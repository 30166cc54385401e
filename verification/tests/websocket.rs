use pending_eth_transactions::alchemy_pending_transactions_messages::{
    AlchemyMessage, PendingTransactionParams, PendingTransactionSubscription, SubscribeResult,
    Transaction, UnSubscribeResult,
};
use pending_eth_transactions::alchemy_pending_transactions_websocket::{
    ensure_is_connected, idle_after_round, AlchemyWebsocketError, ConnectionState, IncomingMessage, OutgoingMessage,
};
use pending_eth_transactions::block_util::convert_to_address;

const ADDRESS: &str = "0x7be8076f4ea4a4ad08075c2508e481d6c946d12b";

fn subscribe_result(id: u64, sub: &str) -> AlchemyMessage {
    AlchemyMessage::SubscribeResult(SubscribeResult { id, subscription_id: sub.to_string(), jsonrpc: "2.0".to_string() })
}

fn unsubscribe_result(id: u64) -> AlchemyMessage {
    AlchemyMessage::UnSubscribeResult(UnSubscribeResult { id, jsonrpc: "2.0".to_string(), success: true })
}

fn transaction(nonce: u64) -> Transaction {
    let mut t = Transaction::default();
    t.nonce = nonce.into();
    t
}

fn notification(nonce: u64) -> AlchemyMessage {
    AlchemyMessage::PendingTransactionSubscription(PendingTransactionSubscription {
        jsonrpc: "2.0".to_string(),
        method: "eth_subscription".to_string(),
        params: PendingTransactionParams { subscription: "0x1".to_string(), transaction: transaction(nonce) },
    })
}

#[test]
fn connected_check() {
    assert_eq!(ensure_is_connected(true), Ok(()));
    assert_eq!(ensure_is_connected(false), Err(AlchemyWebsocketError::ConnectionClosed));
}

#[test]
fn subscribe_then_lookup_then_unsubscribe() {
    let mut state: ConnectionState<u32> = ConnectionState::new();
    let address = convert_to_address(ADDRESS).unwrap();
    let other = convert_to_address("0x0000000000000000000000000000000000000001").unwrap();
    assert_eq!(state.get_subscribe_id(true, &address).unwrap(), None);
    assert_eq!(state.handle_subscribe_response(address, 3, subscribe_result(3, "0xsub")), Ok(()));
    assert_eq!(state.get_subscribe_id(true, &address).unwrap(), Some("0xsub".to_string()));
    assert_eq!(state.get_subscribe_id(true, &other).unwrap(), None);

    assert!(state.create_unsubscribe_request_for(&other).is_none());
    let (id, text) = state.create_unsubscribe_request_for(&address).unwrap();
    assert_eq!(id, 1);
    assert_eq!(text, r#"{"jsonrpc":"2.0","id":1,"method":"eth_unsubscribe","params":["0xsub"]}"#);
    assert_eq!(state.handle_unsubscribe_response(&address, 1, unsubscribe_result(1)), Ok(()));
    assert_eq!(state.get_subscribe_id(true, &address).unwrap(), None);
}

#[test]
fn resubscribing_replaces_the_subscription_id() {
    let mut state: ConnectionState<u32> = ConnectionState::new();
    let address = convert_to_address(ADDRESS).unwrap();
    state.handle_subscribe_response(address, 1, subscribe_result(1, "0xa")).unwrap();
    state.handle_subscribe_response(address, 2, subscribe_result(2, "0xb")).unwrap();
    assert_eq!(state.get_subscribe_id(true, &address).unwrap(), Some("0xb".to_string()));
}

#[test]
fn wrong_answers_to_subscribe_and_unsubscribe_are_errors() {
    let mut state: ConnectionState<u32> = ConnectionState::new();
    let address = convert_to_address(ADDRESS).unwrap();
    assert_eq!(
        state.handle_subscribe_response(address, 1, subscribe_result(2, "0xa")),
        Err(AlchemyWebsocketError::ReceivedResponseForUnexpectedMessageIdOnSubscribe)
    );
    assert_eq!(
        state.handle_subscribe_response(address, 1, unsubscribe_result(1)),
        Err(AlchemyWebsocketError::ReceivedUnexpectedOnSubscribe)
    );
    assert_eq!(state.get_subscribe_id(true, &address).unwrap(), None);
    state.handle_subscribe_response(address, 1, subscribe_result(1, "0xa")).unwrap();
    assert_eq!(
        state.handle_unsubscribe_response(&address, 5, unsubscribe_result(6)),
        Err(AlchemyWebsocketError::ReceivedResponseForUnexpectedMessageIdOnUnSubscribe)
    );
    assert_eq!(
        state.handle_unsubscribe_response(&address, 5, subscribe_result(5, "0xa")),
        Err(AlchemyWebsocketError::ReceivedUnexpectedOnUnSubscribe)
    );
    assert_eq!(state.get_subscribe_id(true, &address).unwrap(), Some("0xa".to_string()));
}

#[test]
fn answers_go_to_the_waiting_request_once() {
    let mut state: ConnectionState<&str> = ConnectionState::new();
    state.add_requests_pending_result(7, "seven");
    state.add_requests_pending_result(8, "eight");
    match state.handle_incoming_message(IncomingMessage::Text(subscribe_result(7, "0xs"))) {
        Ok(Some((id, AlchemyMessage::SubscribeResult(r)))) => {
            assert_eq!(id, 7);
            assert_eq!(r.subscription_id, "0xs");
        }
        _ => panic!("expected delivery"),
    }
    // Until the delivery is recorded the request still waits.
    assert_eq!(state.waiter(7), Some(&"seven"));
    state.complete_request(7);
    assert_eq!(state.waiter(7), None);
    assert!(matches!(
        state.handle_incoming_message(IncomingMessage::Text(subscribe_result(7, "0xs"))),
        Err(AlchemyWebsocketError::ReceivedSubscribeResultForUnexpectedMessageId)
    ));
    match state.handle_incoming_message(IncomingMessage::Text(unsubscribe_result(8))) {
        Ok(Some((id, AlchemyMessage::UnSubscribeResult(r)))) => {
            assert_eq!(id, 8);
            assert_eq!(r.id, 8);
        }
        _ => panic!("expected delivery"),
    }
    assert_eq!(state.waiter(8), Some(&"eight"));
    state.complete_request(8);
    assert!(matches!(
        state.handle_incoming_message(IncomingMessage::Text(unsubscribe_result(8))),
        Err(AlchemyWebsocketError::ReceivedUnSubscribeResultForUnexpectedMessageId)
    ));
}

#[test]
fn unsuccessful_unsubscribe_keeps_the_subscription() {
    let mut state: ConnectionState<u32> = ConnectionState::new();
    let address = convert_to_address(ADDRESS).unwrap();
    state.handle_subscribe_response(address, 1, subscribe_result(1, "0xa")).unwrap();
    let refused = AlchemyMessage::UnSubscribeResult(UnSubscribeResult { id: 2, jsonrpc: "2.0".to_string(), success: false });
    assert_eq!(
        state.handle_unsubscribe_response(&address, 2, refused),
        Err(AlchemyWebsocketError::UnSubscribeNotSuccessful)
    );
    assert_eq!(state.get_subscribe_id(true, &address).unwrap(), Some("0xa".to_string()));
}

#[test]
fn pending_transactions_are_polled_in_order() {
    let mut state: ConnectionState<u32> = ConnectionState::new();
    assert!(state.poll_next(true).unwrap().is_none());
    for n in 1..=3u64 {
        assert!(matches!(state.handle_incoming_message(IncomingMessage::Text(notification(n))), Ok(None)));
    }
    for n in 1..=3u64 {
        assert_eq!(state.poll_next(true).unwrap().unwrap().nonce, n.into());
    }
    assert!(state.poll_next(true).unwrap().is_none());
}

#[test]
fn ping_is_answered_by_pong_after_queued_requests() {
    let mut state: ConnectionState<u32> = ConnectionState::new();
    state.add_message_to_send(OutgoingMessage::Text("first".to_string()));
    assert!(matches!(state.handle_incoming_message(IncomingMessage::Ping(vec![1, 2, 3])), Ok(None)));
    match state.dequeue_message() {
        Some(OutgoingMessage::Text(t)) => assert_eq!(t, "first"),
        _ => panic!("expected the request first"),
    }
    match state.dequeue_message() {
        Some(OutgoingMessage::Pong(p)) => assert_eq!(p, vec![1, 2, 3]),
        _ => panic!("expected the pong"),
    }
    assert!(state.dequeue_message().is_none());
}

#[test]
fn close_is_an_error_and_the_rest_is_ignored() {
    let mut state: ConnectionState<u32> = ConnectionState::new();
    assert!(matches!(state.handle_incoming_message(IncomingMessage::Close), Err(AlchemyWebsocketError::ConnectionClosed)));
    assert!(matches!(state.handle_incoming_message(IncomingMessage::Pong(vec![1])), Ok(None)));
    assert!(matches!(state.handle_incoming_message(IncomingMessage::Binary(vec![1])), Ok(None)));
    assert!(matches!(state.handle_incoming_message(IncomingMessage::Text(AlchemyMessage::Unknown("?".to_string()))), Ok(None)));
    assert!(state.dequeue_message().is_none());
    assert!(state.poll_next(true).unwrap().is_none());
}

#[test]
fn fresh_connection_numbers_its_requests_from_one() {
    let mut state: ConnectionState<u32> = ConnectionState::new();
    let address = convert_to_address(ADDRESS).unwrap();
    let (id, text) = state.create_subscribe_request(address);
    assert_eq!(id, 1);
    assert_eq!(text, r#"{"jsonrpc":"2.0","id":1,"method":"eth_subscribe","params":["alchemy_filteredNewFullPendingTransactions",{"address":"0x7be8076f4ea4a4ad08075c2508e481d6c946d12b"}]}"#);
    assert_eq!(state.take_request_id(), 2);
    state.handle_subscribe_response(address, 1, subscribe_result(1, "0xsub")).unwrap();
    let (id, _) = state.create_unsubscribe_request_for(&address).unwrap();
    assert_eq!(id, 3);
}

#[test]
fn a_closed_connection_refuses_lookups_and_polls() {
    let mut state: ConnectionState<u32> = ConnectionState::new();
    let address = convert_to_address(ADDRESS).unwrap();
    state.handle_subscribe_response(address, 1, subscribe_result(1, "0xsub")).unwrap();
    assert!(matches!(state.handle_incoming_message(IncomingMessage::Text(notification(9))), Ok(None)));
    assert_eq!(state.get_subscribe_id(false, &address), Err(AlchemyWebsocketError::ConnectionClosed));
    assert!(matches!(state.poll_next(false), Err(AlchemyWebsocketError::ConnectionClosed)));
    // Nothing was consumed.
    assert_eq!(state.poll_next(true).unwrap().unwrap().nonce, 9u64.into());
    assert_eq!(state.get_subscribe_id(true, &address), Ok(Some("0xsub".to_string())));
}

#[test]
fn the_task_rests_only_after_an_idle_round() {
    assert!(idle_after_round(false, false));
    assert!(!idle_after_round(true, false));
    assert!(!idle_after_round(false, true));
    assert!(!idle_after_round(true, true));
}
