//! The state of a websocket connection to Alchemy and the decisions taken on it:
//! which requests await an answer, what is queued to be sent, which pending
//! transactions are waiting to be polled and which addresses are subscribed.
//! Reading from and writing to the socket is left to the caller, who hands each
//! received message to `handle_incoming_message` and sends what
//! `dequeue_message` gives.

use vstd::prelude::*;
use std::collections::{HashMap, VecDeque};
use crate::alchemy_pending_transactions_messages::{
    AlchemyMessage,
    next_id,
    next_request_id,
    write_subscribe_request,
    write_unsubscribe_request,
};
use crate::alchemy_pending_transactions_messages::subscribe::subscribe_request_text;
use crate::alchemy_pending_transactions_messages::unsubscribe::unsubscribe_request_text;
use crate::block_util::Address;
use crate::subscription_registry::SubscriptionRegistry;

verus! {

broadcast use vstd::std_specs::hash::group_hash_axioms;

/// What can go wrong on the connection.
#[derive(Debug, Clone, Copy, PartialEq, Eq, Structural)]
pub enum AlchemyWebsocketError {
    ConnectionClosed,
    ReceivedUnexpectedOnSubscribe,
    ReceivedUnexpectedOnUnSubscribe,
    ReceivedResponseForUnexpectedMessageIdOnSubscribe,
    ReceivedResponseForUnexpectedMessageIdOnUnSubscribe,
    ReceivedSubscribeResultForUnexpectedMessageId,
    ReceivedUnSubscribeResultForUnexpectedMessageId,
    /// The answer to an unsubscribe request said that the subscription was not cancelled.
    UnSubscribeNotSuccessful,
}

/// A message to be written to the socket.
pub enum OutgoingMessage {
    /// A JSON-RPC request.
    Text(String),
    /// The answer to a ping, with its payload.
    Pong(Vec<u8>),
}

/// A message read from the socket; a text message comes already read as an
/// Alchemy message (see `parse_to_alchemy_message`).
pub enum IncomingMessage {
    Text(AlchemyMessage),
    Binary(Vec<u8>),
    Ping(Vec<u8>),
    Pong(Vec<u8>),
    Close,
}

/// Succeeds exactly when the connection is still up.
pub fn ensure_is_connected(connected: bool) -> (r: Result<(), AlchemyWebsocketError>)
    ensures
        connected ==> r is Ok,
        !connected ==> r == Err::<(), AlchemyWebsocketError>(
            AlchemyWebsocketError::ConnectionClosed,
        ),
{
    if connected {
        Ok(())
    } else {
        Err(AlchemyWebsocketError::ConnectionClosed)
    }
}

/// Whether the read/write task rests before its next round: exactly when the
/// round it just finished neither read a message nor sent one. (It stops at the
/// start of a round when `ensure_is_connected` fails on the kill switch.)
pub fn idle_after_round(read_message: bool, sent_message: bool) -> (r: bool)
    ensures
        r == (!read_message && !sent_message),
{
    !read_message && !sent_message
}

#[verifier::ext_equal]
/// The abstract state of a connection. `S` is what answers a waiting request
/// (the sending half of a channel, for instance).
pub struct ConnectionView<S> {
    /// Address bytes to subscription id.
    pub subscriptions: Map<Seq<u8>, Seq<char>>,
    /// Request id to the one waiting for its answer.
    pub pending_requests: Map<u64, S>,
    /// Messages waiting to be sent, oldest first.
    pub outgoing: Seq<OutgoingMessage>,
    /// Pending transactions waiting to be polled, oldest first.
    pub transactions: Seq<web3::types::Transaction>,
    /// The id of the last request written.
    pub last_request_id: u64,
}

/// The queue and the item after taking the oldest item of `queue`, if any.
pub open spec fn queue_pop<T>(queue: Seq<T>) -> (Seq<T>, Option<T>) {
    if queue.len() == 0 {
        (queue, None)
    } else {
        (queue.drop_first(), Some(queue[0]))
    }
}

/// The subscription id of `address` in `subscriptions`, if it has one.
pub open spec fn lookup_subscription(
    subscriptions: Map<Seq<u8>, Seq<char>>,
    address: Seq<u8>,
) -> Option<Seq<char>> {
    if subscriptions.contains_key(address) {
        Some(subscriptions[address])
    } else {
        None
    }
}

/// The view of an optional string.
pub open spec fn option_view(o: Option<String>) -> Option<Seq<char>> {
    match o {
        Some(s) => Some(s@),
        None => None,
    }
}

/// The state and the result of polling a connection in state `v` for a
/// pending transaction: when it is down, an error and nothing consumed;
/// otherwise the oldest transaction, taken off the queue, if there is one.
pub open spec fn poll_outcome<S>(v: ConnectionView<S>, connected: bool) -> (
    ConnectionView<S>,
    Result<Option<web3::types::Transaction>, AlchemyWebsocketError>,
) {
    if !connected {
        (v, Err(AlchemyWebsocketError::ConnectionClosed))
    } else {
        (ConnectionView { transactions: queue_pop(v.transactions).0, ..v }, Ok(queue_pop(v.transactions).1))
    }
}

/// The subscriptions and the result after a subscribe request with id
/// `request_id` for `address` is answered by `response`.
pub open spec fn subscribe_outcome(
    subscriptions: Map<Seq<u8>, Seq<char>>,
    address: Seq<u8>,
    request_id: u64,
    response: AlchemyMessage,
) -> (Map<Seq<u8>, Seq<char>>, Result<(), AlchemyWebsocketError>) {
    match response {
        AlchemyMessage::SubscribeResult(result) => if result.id == request_id {
            (subscriptions.insert(address, result.subscription_id@), Ok(()))
        } else {
            (
                subscriptions,
                Err(AlchemyWebsocketError::ReceivedResponseForUnexpectedMessageIdOnSubscribe),
            )
        },
        _ => (subscriptions, Err(AlchemyWebsocketError::ReceivedUnexpectedOnSubscribe)),
    }
}

/// The subscriptions and the result after an unsubscribe request with id
/// `request_id` for `address` is answered by `response`: only an unsubscribe
/// result for that request that reports success cancels the subscription.
pub open spec fn unsubscribe_outcome(
    subscriptions: Map<Seq<u8>, Seq<char>>,
    address: Seq<u8>,
    request_id: u64,
    response: AlchemyMessage,
) -> (Map<Seq<u8>, Seq<char>>, Result<(), AlchemyWebsocketError>) {
    match response {
        AlchemyMessage::UnSubscribeResult(result) => if result.id == request_id {
            if result.success {
                (subscriptions.remove(address), Ok(()))
            } else {
                (subscriptions, Err(AlchemyWebsocketError::UnSubscribeNotSuccessful))
            }
        } else {
            (
                subscriptions,
                Err(AlchemyWebsocketError::ReceivedResponseForUnexpectedMessageIdOnUnSubscribe),
            )
        },
        _ => (subscriptions, Err(AlchemyWebsocketError::ReceivedUnexpectedOnUnSubscribe)),
    }
}

/// The state and the result after the message `message` is read on a
/// connection in state `v`: an answer to a waiting request is handed back with
/// the request's id, to be delivered to the one waiting for it (who keeps
/// waiting until `complete_request`), and an answer to a request that nobody
/// waits for is an error; a pending transaction is queued behind the
/// others; a ping is answered by a pong with its payload, queued behind the
/// messages already waiting; a close is an error; anything else is ignored.
/// An error leaves the state as it was.
pub open spec fn incoming_outcome<S>(v: ConnectionView<S>, message: IncomingMessage) -> (
    ConnectionView<S>,
    Result<Option<(u64, AlchemyMessage)>, AlchemyWebsocketError>,
) {
    match message {
        IncomingMessage::Text(m) => match m {
            AlchemyMessage::SubscribeResult(res) => if v.pending_requests.contains_key(res.id) {
                (v, Ok(Some((res.id, m))))
            } else {
                (v, Err(AlchemyWebsocketError::ReceivedSubscribeResultForUnexpectedMessageId))
            },
            AlchemyMessage::UnSubscribeResult(res) => if v.pending_requests.contains_key(res.id) {
                (v, Ok(Some((res.id, m))))
            } else {
                (v, Err(AlchemyWebsocketError::ReceivedUnSubscribeResultForUnexpectedMessageId))
            },
            AlchemyMessage::PendingTransactionSubscription(p) => (
                ConnectionView { transactions: v.transactions.push(p.params.transaction), ..v },
                Ok(None),
            ),
            AlchemyMessage::Unknown(_) => (v, Ok(None)),
        },
        IncomingMessage::Ping(payload) => (
            ConnectionView { outgoing: v.outgoing.push(OutgoingMessage::Pong(payload)), ..v },
            Ok(None),
        ),
        IncomingMessage::Close => (v, Err(AlchemyWebsocketError::ConnectionClosed)),
        IncomingMessage::Pong(_) => (v, Ok(None)),
        IncomingMessage::Binary(_) => (v, Ok(None)),
    }
}

/// The bookkeeping of one connection.
pub struct ConnectionState<S> {
    subscriptions_active: SubscriptionRegistry,
    requests_pending_result: HashMap<u64, S>,
    messages_to_send: VecDeque<OutgoingMessage>,
    pending_transactions: VecDeque<web3::types::Transaction>,
    last_request_id: u64,
}

impl<S> View for ConnectionState<S> {
    type V = ConnectionView<S>;

    closed spec fn view(&self) -> ConnectionView<S> {
        ConnectionView {
            subscriptions: self.subscriptions_active@,
            pending_requests: self.requests_pending_result@,
            outgoing: self.messages_to_send@,
            transactions: self.pending_transactions@,
            last_request_id: self.last_request_id,
        }
    }
}

impl<S> ConnectionState<S> {
    /// A fresh connection: nothing subscribed, pending or queued, and no request
    /// written yet (so the first request gets id 1).
    pub fn new() -> (r: Self)
        ensures
            r@.last_request_id == 0,
            r@.subscriptions == Map::<Seq<u8>, Seq<char>>::empty(),
            r@.pending_requests == Map::<u64, S>::empty(),
            r@.outgoing == Seq::<OutgoingMessage>::empty(),
            r@.transactions == Seq::<web3::types::Transaction>::empty(),
    {
        ConnectionState {
            subscriptions_active: SubscriptionRegistry::new(),
            requests_pending_result: HashMap::new(),
            messages_to_send: VecDeque::new(),
            pending_transactions: VecDeque::new(),
            last_request_id: 0,
        }
    }

    /// Takes the id of the next request: the successor of the last one.
    pub fn take_request_id(&mut self) -> (r: u64)
        ensures
            r == next_id(old(self)@.last_request_id),
            final(self)@ == (ConnectionView { last_request_id: r, ..old(self)@ }),
    {
        let id = next_request_id(self.last_request_id);
        self.last_request_id = id;
        id
    }

    /// Takes the id of the next request and writes the request that subscribes
    /// to the pending transactions of `address` under it.
    pub fn create_subscribe_request(&mut self, address: Address) -> (r: (u64, String))
        ensures
            r.0 == next_id(old(self)@.last_request_id),
            r.1@ == subscribe_request_text(r.0, address@),
            final(self)@ == (ConnectionView { last_request_id: r.0, ..old(self)@ }),
    {
        let id = self.take_request_id();
        (id, write_subscribe_request(id, address))
    }

    /// Records that `tx_response` waits for the answer to request `request_id`,
    /// in place of whoever waited for it before.
    pub fn add_requests_pending_result(&mut self, request_id: u64, tx_response: S)
        ensures
            final(self)@ == (ConnectionView {
                pending_requests: old(self)@.pending_requests.insert(request_id, tx_response),
                ..old(self)@
            }),
    {
        let _ = self.requests_pending_result.insert(request_id, tx_response);
    }

    /// The one waiting for the answer to request `request_id`, if anyone is.
    pub fn waiter(&self, request_id: u64) -> (r: Option<&S>)
        ensures
            match r {
                Some(w) => self@.pending_requests.contains_key(request_id) && *w
                    == self@.pending_requests[request_id],
                None => !self@.pending_requests.contains_key(request_id),
            },
    {
        self.requests_pending_result.get(&request_id)
    }

    /// Records that the answer to request `request_id` was delivered: nobody
    /// waits for it any longer.
    pub fn complete_request(&mut self, request_id: u64)
        ensures
            final(self)@ == (ConnectionView {
                pending_requests: old(self)@.pending_requests.remove(request_id),
                ..old(self)@
            }),
    {
        let _ = self.requests_pending_result.remove(&request_id);
    }

    /// Queues `message` to be sent after those already queued.
    pub fn add_message_to_send(&mut self, message: OutgoingMessage)
        ensures
            final(self)@ == (ConnectionView { outgoing: old(self)@.outgoing.push(message), ..old(self)@ }),
    {
        self.messages_to_send.push_back(message);
    }

    /// Takes the oldest queued message, if any.
    pub fn dequeue_message(&mut self) -> (r: Option<OutgoingMessage>)
        ensures
            (final(self)@.outgoing, r) == queue_pop(old(self)@.outgoing),
            final(self)@ == (ConnectionView { outgoing: final(self)@.outgoing, ..old(self)@ }),
    {
        self.messages_to_send.pop_front()
    }

    /// Takes the oldest pending transaction, if any, as `poll_outcome` says: an
    /// error, consuming nothing, when the connection is down.
    pub fn poll_next(&mut self, connected: bool) -> (r: Result<
        Option<web3::types::Transaction>,
        AlchemyWebsocketError,
    >)
        ensures
            (final(self)@, r) == poll_outcome(old(self)@, connected),
    {
        ensure_is_connected(connected)?;
        Ok(self.pending_transactions.pop_front())
    }

    /// The id of the subscription for `address`, if it is subscribed: an error
    /// when the connection is down.
    pub fn get_subscribe_id(&self, connected: bool, address: &Address) -> (r: Result<
        Option<String>,
        AlchemyWebsocketError,
    >)
        ensures
            !connected ==> r == Err::<Option<String>, AlchemyWebsocketError>(
                AlchemyWebsocketError::ConnectionClosed,
            ),
            connected ==> r is Ok && option_view(r->Ok_0) == lookup_subscription(
                self@.subscriptions,
                address@,
            ),
    {
        ensure_is_connected(connected)?;
        Ok(self.subscriptions_active.get(address))
    }

    /// Applies the answer `response` to the subscribe request `request_id` for
    /// `address`: a subscribe result for that request records the subscription;
    /// any other answer is an error and changes nothing.
    pub fn handle_subscribe_response(
        &mut self,
        address: Address,
        request_id: u64,
        response: AlchemyMessage,
    ) -> (r: Result<(), AlchemyWebsocketError>)
        ensures
            (final(self)@.subscriptions, r) == subscribe_outcome(
                old(self)@.subscriptions,
                address@,
                request_id,
                response,
            ),
            final(self)@ == (ConnectionView {
                subscriptions: final(self)@.subscriptions,
                ..old(self)@
            }),
    {
        match response {
            AlchemyMessage::SubscribeResult(result) => {
                if result.id == request_id {
                    self.subscriptions_active.insert(address, result.subscription_id);
                    Ok(())
                } else {
                    Err(AlchemyWebsocketError::ReceivedResponseForUnexpectedMessageIdOnSubscribe)
                }
            },
            _ => Err(AlchemyWebsocketError::ReceivedUnexpectedOnSubscribe),
        }
    }

    /// The unsubscribe request for `address`, when it is subscribed: takes the
    /// id of the next request and writes the request that cancels its
    /// subscription under it. `None`, and nothing changed, when it is not
    /// subscribed.
    pub fn create_unsubscribe_request_for(&mut self, address: &Address) -> (r: Option<
        (u64, String),
    >)
        ensures
            r is None <==> !old(self)@.subscriptions.contains_key(address@),
            r is None ==> final(self)@ == old(self)@,
            r matches Some(req) ==> {
                &&& req.0 == next_id(old(self)@.last_request_id)
                &&& req.1@ == unsubscribe_request_text(
                    req.0,
                    old(self)@.subscriptions[address@],
                )
                &&& final(self)@ == (ConnectionView { last_request_id: req.0, ..old(self)@ })
            },
    {
        match self.subscriptions_active.get(address) {
            None => None,
            Some(subscribe_id) => {
                let id = self.take_request_id();
                Some((id, write_unsubscribe_request(id, subscribe_id)))
            },
        }
    }

    /// Applies the answer `response` to the unsubscribe request `request_id` for
    /// `address`: an unsubscribe result for that request that reports success
    /// forgets the subscription; any other answer is an error and changes nothing.
    pub fn handle_unsubscribe_response(
        &mut self,
        address: &Address,
        request_id: u64,
        response: AlchemyMessage,
    ) -> (r: Result<(), AlchemyWebsocketError>)
        ensures
            (final(self)@.subscriptions, r) == unsubscribe_outcome(
                old(self)@.subscriptions,
                address@,
                request_id,
                response,
            ),
            final(self)@ == (ConnectionView {
                subscriptions: final(self)@.subscriptions,
                ..old(self)@
            }),
    {
        match response {
            AlchemyMessage::UnSubscribeResult(result) => {
                if result.id == request_id {
                    if result.success {
                        self.subscriptions_active.remove(address);
                        Ok(())
                    } else {
                        Err(AlchemyWebsocketError::UnSubscribeNotSuccessful)
                    }
                } else {
                    Err(AlchemyWebsocketError::ReceivedResponseForUnexpectedMessageIdOnUnSubscribe)
                }
            },
            _ => Err(AlchemyWebsocketError::ReceivedUnexpectedOnUnSubscribe),
        }
    }

    /// Handles one message read from the socket, as `incoming_outcome` says.
    pub fn handle_incoming_message(&mut self, message: IncomingMessage) -> (r: Result<
        Option<(u64, AlchemyMessage)>,
        AlchemyWebsocketError,
    >)
        ensures
            (final(self)@, r) == incoming_outcome(old(self)@, message),
    {
        match message {
            IncomingMessage::Text(alchemy_message) => {
                match alchemy_message {
                    AlchemyMessage::SubscribeResult(res) => {
                        if self.requests_pending_result.contains_key(&res.id) {
                            Ok(Some((res.id, AlchemyMessage::SubscribeResult(res))))
                        } else {
                            Err(AlchemyWebsocketError::ReceivedSubscribeResultForUnexpectedMessageId)
                        }
                    },
                    AlchemyMessage::UnSubscribeResult(res) => {
                        if self.requests_pending_result.contains_key(&res.id) {
                            Ok(Some((res.id, AlchemyMessage::UnSubscribeResult(res))))
                        } else {
                            Err(AlchemyWebsocketError::ReceivedUnSubscribeResultForUnexpectedMessageId)
                        }
                    },
                    AlchemyMessage::PendingTransactionSubscription(notification) => {
                        self.pending_transactions.push_back(notification.params.transaction);
                        Ok(None)
                    },
                    AlchemyMessage::Unknown(_) => Ok(None),
                }
            },
            IncomingMessage::Ping(payload) => {
                self.add_message_to_send(OutgoingMessage::Pong(payload));
                Ok(None)
            },
            IncomingMessage::Pong(_) => Ok(None),
            IncomingMessage::Binary(_) => Ok(None),
            IncomingMessage::Close => Err(AlchemyWebsocketError::ConnectionClosed),
        }
    }
}

} // verus!
