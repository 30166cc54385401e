//! Properties that hold across the library's operations.

use vstd::prelude::*;
use crate::alchemy_pending_transactions_messages::{
    AlchemyMessage,
    SubscribeResult,
    UnSubscribeResult,
    next_id,
};
use crate::alchemy_pending_transactions_websocket::{
    ConnectionView,
    queue_pop,
    poll_outcome,
    lookup_subscription,
    IncomingMessage,
    OutgoingMessage,
    incoming_outcome,
    subscribe_outcome,
    unsubscribe_outcome,
};
use crate::block_util::{
    address_debug_text,
    address_from_str,
    first_non_hex_index,
    hex_digits,
    hex_pairs,
    hex_value,
    is_hex_digit,
    splits_after_two_bytes,
    after_two_bytes,
    strip_hex_prefix,
    h160_from_str,
    lower_hex_bytes,
};
use crate::json::lower_hex_digit;
use crate::alchemy_pending_transactions_websocket::AlchemyWebsocketError;
use crate::block_util::AddressError;

verus! {

/// The id handed out by the `n`-th request after the counter stood at `start`.
pub open spec fn nth_request_id(start: u64, n: nat) -> u64
    decreases n,
{
    if n == 0 {
        start
    } else {
        next_id(nth_request_id(start, (n - 1) as nat))
    }
}

/// Successive requests get successive ids (`take_request_id` hands out
/// `next_id` of the last id and records it), so no two requests share an id as
/// long as the counter does not pass `u64::MAX`; a fresh connection starts at 0,
/// so its `n`-th request gets id `n`.
pub proof fn lemma_request_ids_distinct(start: u64, i: nat, j: nat)
    requires
        i < j,
        start + j <= u64::MAX,
    ensures
        nth_request_id(start, i) == start + i,
        nth_request_id(start, j) == start + j,
        nth_request_id(start, i) != nth_request_id(start, j),
{
    lemma_nth_request_id(start, i);
    lemma_nth_request_id(start, j);
}

proof fn lemma_nth_request_id(start: u64, n: nat)
    requires
        start + n <= u64::MAX,
    ensures
        nth_request_id(start, n) == start + n,
    decreases n,
{
    if n > 0 {
        lemma_nth_request_id(start, (n - 1) as nat);
    }
}

/// Once a subscribe request is answered by its own subscribe result, the address
/// is subscribed under the id that the answer gave, and every other address
/// keeps what it had.
pub proof fn lemma_subscribe_then_lookup(
    subscriptions: Map<Seq<u8>, Seq<char>>,
    address: Seq<u8>,
    request_id: u64,
    result: SubscribeResult,
    other: Seq<u8>,
)
    requires
        result.id == request_id,
        other != address,
    ensures
        ({
            let (after, r) = subscribe_outcome(
                subscriptions,
                address,
                request_id,
                AlchemyMessage::SubscribeResult(result),
            );
            &&& r is Ok
            &&& after.contains_key(address)
            &&& after[address] == result.subscription_id@
            &&& after.contains_key(other) == subscriptions.contains_key(other)
            &&& after.contains_key(other) ==> after[other] == subscriptions[other]
        }),
{
}

/// Unsubscribing an address that a subscribe had just added, each request
/// answered by its own result and the unsubscribe reported successful, leaves
/// the subscriptions as they were before.
pub proof fn lemma_unsubscribe_undoes_subscribe(
    subscriptions: Map<Seq<u8>, Seq<char>>,
    address: Seq<u8>,
    subscribe_id: u64,
    subscribed: SubscribeResult,
    unsubscribe_id: u64,
    unsubscribed: UnSubscribeResult,
)
    requires
        !subscriptions.contains_key(address),
        subscribed.id == subscribe_id,
        unsubscribed.id == unsubscribe_id,
        unsubscribed.success,
    ensures
        ({
            let (mid, r1) = subscribe_outcome(
                subscriptions,
                address,
                subscribe_id,
                AlchemyMessage::SubscribeResult(subscribed),
            );
            let (after, r2) = unsubscribe_outcome(
                mid,
                address,
                unsubscribe_id,
                AlchemyMessage::UnSubscribeResult(unsubscribed),
            );
            &&& r1 is Ok
            &&& r2 is Ok
            &&& after == subscriptions
        }),
{
    let mid = subscriptions.insert(address, subscribed.subscription_id@);
    assert(mid.remove(address) =~= subscriptions);
}

/// An answer that is not the result of the request it answers, and an
/// unsubscribe result that reports failure, is refused with an error and
/// changes no subscription.
pub proof fn lemma_refused_answer_changes_nothing(
    subscriptions: Map<Seq<u8>, Seq<char>>,
    address: Seq<u8>,
    request_id: u64,
    response: AlchemyMessage,
)
    ensures
        !(response matches AlchemyMessage::SubscribeResult(res) && res.id == request_id) ==> {
            let (after, r) = subscribe_outcome(subscriptions, address, request_id, response);
            &&& after == subscriptions
            &&& r is Err
        },
        !(response matches AlchemyMessage::UnSubscribeResult(res) && res.id == request_id
            && res.success) ==> {
            let (after, r) = unsubscribe_outcome(subscriptions, address, request_id, response);
            &&& after == subscriptions
            &&& r is Err
        },
{
}

/// A request registered as waiting, once its own result is read, is answered:
/// the result is handed back with the request's id, under which the one that
/// waited is found; reading it changes nothing, so the request stays registered
/// until `complete_request` records the delivery, which leaves the connection
/// as it was before the request was registered.
pub proof fn lemma_answer_reaches_registered_waiter<S>(
    v: ConnectionView<S>,
    request_id: u64,
    waiter: S,
    answer: AlchemyMessage,
)
    requires
        !v.pending_requests.contains_key(request_id),
        (answer matches AlchemyMessage::SubscribeResult(res) && res.id == request_id) || (
        answer matches AlchemyMessage::UnSubscribeResult(res) && res.id == request_id),
    ensures
        ({
            let registered = ConnectionView {
                pending_requests: v.pending_requests.insert(request_id, waiter),
                ..v
            };
            &&& incoming_outcome(registered, IncomingMessage::Text(answer)) == (
                registered,
                Ok::<Option<(u64, AlchemyMessage)>, AlchemyWebsocketError>(
                    Some((request_id, answer)),
                ),
            )
            &&& registered.pending_requests.contains_key(request_id)
            &&& registered.pending_requests[request_id] == waiter
            &&& (ConnectionView {
                pending_requests: registered.pending_requests.remove(request_id),
                ..registered
            }) == v
        }),
{
    let registered = v.pending_requests.insert(request_id, waiter);
    assert(registered.remove(request_id) =~= v.pending_requests);
}

/// A result for a request that nobody waits for is refused and changes nothing.
pub proof fn lemma_unexpected_answer_refused<S>(v: ConnectionView<S>, answer: AlchemyMessage)
    requires
        (answer matches AlchemyMessage::SubscribeResult(res) && !v.pending_requests.contains_key(
            res.id,
        )) || (answer matches AlchemyMessage::UnSubscribeResult(res)
            && !v.pending_requests.contains_key(res.id)),
    ensures
        incoming_outcome(v, IncomingMessage::Text(answer)).0 == v,
        incoming_outcome(v, IncomingMessage::Text(answer)).1 is Err,
{
}

/// Reading a message never changes which addresses are subscribed.
pub proof fn lemma_incoming_keeps_subscriptions<S>(v: ConnectionView<S>, message: IncomingMessage)
    ensures
        incoming_outcome(v, message).0.subscriptions == v.subscriptions,
{
}

/// A ping is answered by a pong with its payload, sent after every message
/// already waiting to be sent: taking the queued messages one by one
/// (`dequeue_message`) gives those messages in order and then the pong.
pub proof fn lemma_ping_answered_after_queued<S>(v: ConnectionView<S>, payload: Vec<u8>)
    ensures
        ({
            let queued = incoming_outcome(v, IncomingMessage::Ping(payload)).0.outgoing;
            run_queue(queued, pops((v.outgoing.len() + 1) as nat)) == (
                Seq::<OutgoingMessage>::empty(),
                v.outgoing.push(OutgoingMessage::Pong(payload)),
            )
        }),
{
    let queued = v.outgoing.push(OutgoingMessage::Pong(payload));
    lemma_pops_take(queued, queued.len());
    assert(queued.skip(queued.len() as int) =~= Seq::<OutgoingMessage>::empty());
    assert(queued.take(queued.len() as int) =~= queued);
}

/// A lowercase hex digit.
pub open spec fn is_lower_hex_digit(c: char) -> bool {
    ||| (('0' as int) <= (c as int) <= ('9' as int))
    ||| (('a' as int) <= (c as int) <= ('f' as int))
}

proof fn lemma_all_hex_scanned(t: Seq<char>)
    requires
        forall|i: int| 0 <= i < t.len() ==> is_hex_digit(#[trigger] t[i]),
    ensures
        first_non_hex_index(t) == t.len(),
        hex_digits(t) == t,
    decreases t.len(),
{
    if t.len() > 0 {
        assert forall|i: int| 0 <= i < t.drop_first().len() implies is_hex_digit(
            #[trigger] t.drop_first()[i],
        ) by {
            assert(t.drop_first()[i] == t[i + 1]);
        }
        assert forall|i: int| 0 <= i < t.drop_last().len() implies is_hex_digit(
            #[trigger] t.drop_last()[i],
        ) by {
            assert(t.drop_last()[i] == t[i]);
        }
        lemma_all_hex_scanned(t.drop_first());
        lemma_all_hex_scanned(t.drop_last());
        assert(t.drop_last().push(t.last()) =~= t);
    }
}

proof fn lemma_lower_hex_digit_value(c: char)
    requires
        is_lower_hex_digit(c),
    ensures
        0 <= hex_value(c) < 16,
        lower_hex_digit(hex_value(c)) == c,
{
}

/// Reading `0x` and forty lowercase hex digits as an address and writing the
/// address back gives the same text.
pub proof fn lemma_address_text_round_trip(s: Seq<char>)
    requires
        s.len() == 42,
        s[0] == '0',
        s[1] == 'x',
        forall|i: int| 2 <= i < 42 ==> is_lower_hex_digit(#[trigger] s[i]),
    ensures
        splits_after_two_bytes(s),
        address_from_str(s) is Ok,
        address_debug_text(address_from_str(s)->Ok_0) == s,
{
    let t = after_two_bytes(s);
    assert(t == s.skip(2));
    assert forall|i: int| 0 <= i < t.len() implies is_hex_digit(#[trigger] t[i]) by {
        assert(t[i] == s[i + 2]);
        assert(is_lower_hex_digit(s[i + 2]));
    }
    assert(is_lower_hex_digit(s[3]));
    assert(t[1] == s[3]);
    assert(strip_hex_prefix(t) == t);
    lemma_all_hex_scanned(t);
    assert(t.take(t.len() as int) =~= t);
    let b = hex_pairs(t, 20);
    assert(h160_from_str(t) == Ok::<Seq<u8>, AddressError>(b));
    let text = address_debug_text(b);
    assert forall|j: int| 0 <= j < 42 implies #[trigger] text[j] == s[j] by {
        if j >= 2 {
            let k = j - 2;
            let i = k / 2;
            assert(0 <= i < 20);
            lemma_lower_hex_digit_value(t[2 * i]);
            lemma_lower_hex_digit_value(t[2 * i + 1]);
            assert(t[2 * i] == s[2 * i + 2]);
            assert(t[2 * i + 1] == s[2 * i + 3]);
            let hi = hex_value(t[2 * i]);
            let lo = hex_value(t[2 * i + 1]);
            assert(b[i] == (16 * hi + lo) as u8);
            assert((16 * hi + lo) / 16 == hi && (16 * hi + lo) % 16 == lo);
            assert(lower_hex_bytes(b)[k] == text[j]);
        }
    }
    assert(text =~= s);
}

/// A call on a connection's subscriptions and the answer it received.
pub enum SubscriptionCall {
    Subscribe { address: Seq<u8>, request_id: u64, response: AlchemyMessage },
    Unsubscribe { address: Seq<u8>, request_id: u64, response: AlchemyMessage },
}

/// The subscriptions after `call`, as `handle_subscribe_response` and
/// `handle_unsubscribe_response` leave them.
pub open spec fn apply_subscription_call(
    subscriptions: Map<Seq<u8>, Seq<char>>,
    call: SubscriptionCall,
) -> Map<Seq<u8>, Seq<char>> {
    match call {
        SubscriptionCall::Subscribe { address, request_id, response } => subscribe_outcome(
            subscriptions,
            address,
            request_id,
            response,
        ).0,
        SubscriptionCall::Unsubscribe { address, request_id, response } => unsubscribe_outcome(
            subscriptions,
            address,
            request_id,
            response,
        ).0,
    }
}

/// The subscriptions after the calls `calls`, in order.
pub open spec fn apply_subscription_calls(
    subscriptions: Map<Seq<u8>, Seq<char>>,
    calls: Seq<SubscriptionCall>,
) -> Map<Seq<u8>, Seq<char>>
    decreases calls.len(),
{
    if calls.len() == 0 {
        subscriptions
    } else {
        apply_subscription_call(
            apply_subscription_calls(subscriptions, calls.drop_last()),
            calls.last(),
        )
    }
}

/// `call` is a successful subscribe of `address`, answered with subscription id `id`.
pub open spec fn call_subscribes(call: SubscriptionCall, address: Seq<u8>, id: Seq<char>) -> bool {
    match call {
        SubscriptionCall::Subscribe { address: a, request_id, response } => a == address && (
        response matches AlchemyMessage::SubscribeResult(r) && r.id == request_id
            && r.subscription_id@ == id),
        SubscriptionCall::Unsubscribe { .. } => false,
    }
}

/// `call` is a successful subscribe or unsubscribe of `address`.
pub open spec fn call_changes(call: SubscriptionCall, address: Seq<u8>) -> bool {
    match call {
        SubscriptionCall::Subscribe { address: a, request_id, response } => a == address && (
        response matches AlchemyMessage::SubscribeResult(r) && r.id == request_id),
        SubscriptionCall::Unsubscribe { address: a, request_id, response } => a == address && (
        response matches AlchemyMessage::UnSubscribeResult(r) && r.id == request_id && r.success),
    }
}

proof fn lemma_one_subscription_call(
    subscriptions: Map<Seq<u8>, Seq<char>>,
    call: SubscriptionCall,
    address: Seq<u8>,
    id: Seq<char>,
)
    ensures
        call_subscribes(call, address, id) ==> call_changes(call, address),
        ({
            let after = apply_subscription_call(subscriptions, call);
            &&& !call_changes(call, address) ==> (after.contains_key(address)
                == subscriptions.contains_key(address) && (after.contains_key(address)
                ==> after[address] == subscriptions[address]))
            &&& call_changes(call, address) ==> ((after.contains_key(address) && after[address]
                == id) <==> call_subscribes(call, address, id))
        }),
{
}

/// After a history of subscribe and unsubscribe calls, `get_subscribe_id` on a
/// live connection gives `id` for an address (see `lookup_subscription`) exactly when the last call that changed it was a successful
/// subscribe answered with `id`, or no call changed it and it was subscribed
/// under `id` before. From a fresh connection (no subscriptions), an address is
/// subscribed only through such a subscribe.
pub proof fn lemma_subscriptions_after_calls(
    subscriptions: Map<Seq<u8>, Seq<char>>,
    calls: Seq<SubscriptionCall>,
    address: Seq<u8>,
    id: Seq<char>,
)
    ensures
        ({
            let after = apply_subscription_calls(subscriptions, calls);
            lookup_subscription(after, address) == Some(id) <==> {
                ||| exists|i: int|
                    #![trigger calls[i]]
                    0 <= i < calls.len() && call_subscribes(calls[i], address, id) && forall|j: int|
                        i < j < calls.len() ==> !call_changes(#[trigger] calls[j], address)
                ||| lookup_subscription(subscriptions, address) == Some(id) && forall|
                    j: int,
                |
                    0 <= j < calls.len() ==> !call_changes(#[trigger] calls[j], address)
            }
        }),
    decreases calls.len(),
{
    if calls.len() > 0 {
        let n = calls.len() - 1;
        let prev = calls.drop_last();
        let c = calls.last();
        lemma_subscriptions_after_calls(subscriptions, prev, address, id);
        lemma_one_subscription_call(
            apply_subscription_calls(subscriptions, prev),
            c,
            address,
            id,
        );
        let after = apply_subscription_calls(subscriptions, calls);
        let lhs = after.contains_key(address) && after[address] == id;
        let first = exists|i: int|
            #![trigger calls[i]]
            0 <= i < calls.len() && call_subscribes(calls[i], address, id) && forall|j: int|
                i < j < calls.len() ==> !call_changes(#[trigger] calls[j], address);
        let second = subscriptions.contains_key(address) && subscriptions[address] == id
            && forall|j: int| 0 <= j < calls.len() ==> !call_changes(#[trigger] calls[j], address);
        let prev_first = exists|i: int|
            #![trigger prev[i]]
            0 <= i < prev.len() && call_subscribes(prev[i], address, id) && forall|j: int|
                i < j < prev.len() ==> !call_changes(#[trigger] prev[j], address);
        let prev_second = subscriptions.contains_key(address) && subscriptions[address] == id
            && forall|j: int| 0 <= j < prev.len() ==> !call_changes(#[trigger] prev[j], address);
        assert(calls[n] == c);
        if call_changes(c, address) {
            if lhs {
                assert(call_subscribes(calls[n], address, id));
                assert(first);
            }
            if first {
                let i = choose|i: int|
                    #![trigger calls[i]]
                    0 <= i < calls.len() && call_subscribes(calls[i], address, id) && forall|j: int|
                        i < j < calls.len() ==> !call_changes(#[trigger] calls[j], address);
                if i < n {
                    assert(!call_changes(calls[n], address));
                }
                assert(lhs);
            }
            if second {
                assert(!call_changes(calls[n], address));
            }
        } else {
            if prev_first {
                let i = choose|i: int|
                    #![trigger prev[i]]
                    0 <= i < prev.len() && call_subscribes(prev[i], address, id) && forall|j: int|
                        i < j < prev.len() ==> !call_changes(#[trigger] prev[j], address);
                assert(calls[i] == prev[i]);
                assert forall|j: int| i < j < calls.len() implies !call_changes(
                    #[trigger] calls[j],
                    address,
                ) by {
                    if j < n {
                        assert(calls[j] == prev[j]);
                    }
                }
                assert(first);
            }
            if first {
                let i = choose|i: int|
                    #![trigger calls[i]]
                    0 <= i < calls.len() && call_subscribes(calls[i], address, id) && forall|j: int|
                        i < j < calls.len() ==> !call_changes(#[trigger] calls[j], address);
                lemma_one_subscription_call(
                    apply_subscription_calls(subscriptions, prev),
                    calls[i],
                    address,
                    id,
                );
                assert(i != n);
                assert(prev[i] == calls[i]);
                assert forall|j: int| i < j < prev.len() implies !call_changes(
                    #[trigger] prev[j],
                    address,
                ) by {
                    assert(prev[j] == calls[j]);
                }
                assert(prev_first);
            }
            if prev_second {
                assert forall|j: int| 0 <= j < calls.len() implies !call_changes(
                    #[trigger] calls[j],
                    address,
                ) by {
                    if j < n {
                        assert(calls[j] == prev[j]);
                    }
                }
            }
            if second {
                assert forall|j: int| 0 <= j < prev.len() implies !call_changes(
                    #[trigger] prev[j],
                    address,
                ) by {
                    assert(prev[j] == calls[j]);
                }
            }
        }
    }
}

/// One operation on a first-in first-out queue: queuing an item at the back, or
/// taking the oldest item, if any.
pub enum QueueStep<T> {
    Push(T),
    Pop,
}

/// The queue, and the items handed out by its pops in order, after the steps
/// `steps` starting from `queue`. A push is what `add_message_to_send` (and a
/// ping, through `handle_incoming_message`) does to the messages to send, and
/// what a pending-transaction notification does to the transactions; a pop is
/// `dequeue_message` and `poll_next`, each as `queue_pop` says.
pub open spec fn run_queue<T>(queue: Seq<T>, steps: Seq<QueueStep<T>>) -> (Seq<T>, Seq<T>)
    decreases steps.len(),
{
    if steps.len() == 0 {
        (queue, Seq::empty())
    } else {
        let (q, out) = run_queue(queue, steps.drop_last());
        match steps.last() {
            QueueStep::Push(item) => (q.push(item), out),
            QueueStep::Pop => match queue_pop(q) {
                (rest, Some(item)) => (rest, out.push(item)),
                (rest, None) => (rest, out),
            },
        }
    }
}

/// The items that the steps `steps` push, in order.
pub open spec fn pushed_items<T>(steps: Seq<QueueStep<T>>) -> Seq<T>
    decreases steps.len(),
{
    if steps.len() == 0 {
        Seq::empty()
    } else {
        match steps.last() {
            QueueStep::Push(item) => pushed_items(steps.drop_last()).push(item),
            QueueStep::Pop => pushed_items(steps.drop_last()),
        }
    }
}

/// Whatever the pushes and pops, the items handed out followed by what is left
/// queued are the items first queued followed by those pushed, in order: every
/// item comes out exactly once, in the order it went in, and nothing comes out
/// that was not put in (a fresh, empty queue hands out nothing before a push).
pub proof fn lemma_queue_first_in_first_out<T>(queue: Seq<T>, steps: Seq<QueueStep<T>>)
    ensures
        run_queue(queue, steps).1 + run_queue(queue, steps).0 == queue + pushed_items(steps),
    decreases steps.len(),
{
    if steps.len() > 0 {
        let prev = steps.drop_last();
        lemma_queue_first_in_first_out(queue, prev);
        let (q, out) = run_queue(queue, prev);
        match steps.last() {
            QueueStep::Push(item) => {
                assert(out + q.push(item) =~= (out + q).push(item));
                assert(queue + pushed_items(prev).push(item) =~= (queue + pushed_items(
                    prev,
                )).push(item));
            },
            QueueStep::Pop => {
                if q.len() > 0 {
                    assert(out.push(q[0]) + q.drop_first() =~= out + q);
                }
            },
        }
    }
}

/// `n` pops.
pub open spec fn pops<T>(n: nat) -> Seq<QueueStep<T>> {
    Seq::new(n, |i: int| QueueStep::Pop)
}

proof fn lemma_pops_take<T>(queue: Seq<T>, k: nat)
    requires
        k <= queue.len(),
    ensures
        run_queue(queue, pops(k)) == (queue.skip(k as int), queue.take(k as int)),
    decreases k,
{
    if k > 0 {
        let prev = pops::<T>((k - 1) as nat);
        assert(pops::<T>(k).drop_last() =~= prev);
        lemma_pops_take(queue, (k - 1) as nat);
        let q = queue.skip(k - 1);
        assert(q[0] == queue[k - 1]);
        assert(q.drop_first() =~= queue.skip(k as int));
        assert(queue.take(k - 1).push(queue[k - 1]) =~= queue.take(k as int));
    }
}

/// One event on a connection: a message read from the socket, or a poll for a
/// pending transaction while the connection is up.
pub enum ConnectionEvent {
    Read(IncomingMessage),
    Poll,
}

/// The connection and the transactions handed out by its polls, in order, after
/// the events `events`, each read message as `handle_incoming_message` handles
/// it and each poll as `poll_next` does.
pub open spec fn run_connection<S>(v: ConnectionView<S>, events: Seq<ConnectionEvent>) -> (
    ConnectionView<S>,
    Seq<web3::types::Transaction>,
)
    decreases events.len(),
{
    if events.len() == 0 {
        (v, Seq::empty())
    } else {
        let (w, polled) = run_connection(v, events.drop_last());
        match events.last() {
            ConnectionEvent::Read(message) => (incoming_outcome(w, message).0, polled),
            ConnectionEvent::Poll => match poll_outcome(w, true) {
                (after, Ok(Some(t))) => (after, polled.push(t)),
                (after, _) => (after, polled),
            },
        }
    }
}

/// The transactions that the pending-transaction notifications among `events`
/// carry, in order.
pub open spec fn notified_transactions(events: Seq<ConnectionEvent>) -> Seq<
    web3::types::Transaction,
>
    decreases events.len(),
{
    if events.len() == 0 {
        Seq::empty()
    } else {
        let earlier = notified_transactions(events.drop_last());
        match events.last() {
            ConnectionEvent::Read(
                IncomingMessage::Text(AlchemyMessage::PendingTransactionSubscription(p)),
            ) => earlier.push(p.params.transaction),
            _ => earlier,
        }
    }
}

/// Over any history of reads and polls, the transactions handed out by the
/// polls followed by those still queued are the transactions queued at the
/// start followed by those the notifications carried, in order: every notified
/// transaction is polled exactly once, in arrival order, and a poll finds
/// nothing only when every earlier one has been handed out. From a fresh
/// connection (nothing queued), the `j`-th successful poll returns the `j`-th
/// notified transaction.
pub proof fn lemma_transactions_polled_in_arrival_order<S>(
    v: ConnectionView<S>,
    events: Seq<ConnectionEvent>,
)
    ensures
        run_connection(v, events).1 + run_connection(v, events).0.transactions == v.transactions
            + notified_transactions(events),
    decreases events.len(),
{
    if events.len() > 0 {
        let prev = events.drop_last();
        lemma_transactions_polled_in_arrival_order(v, prev);
        let (w, polled) = run_connection(v, prev);
        match events.last() {
            ConnectionEvent::Read(message) => {
                match message {
                    IncomingMessage::Text(AlchemyMessage::PendingTransactionSubscription(p)) => {
                        let t = p.params.transaction;
                        assert(polled + w.transactions.push(t) =~= (polled + w.transactions).push(
                            t,
                        ));
                        assert(v.transactions + notified_transactions(prev).push(t) =~= (
                        v.transactions + notified_transactions(prev)).push(t));
                    },
                    _ => {
                        assert(incoming_outcome(w, message).0.transactions == w.transactions);
                    },
                }
            },
            ConnectionEvent::Poll => {
                if w.transactions.len() > 0 {
                    assert(polled.push(w.transactions[0]) + w.transactions.drop_first()
                        =~= polled + w.transactions);
                }
            },
        }
    }
}

/// A poll on a live connection with a transaction queued hands out the oldest
/// queued transaction and removes it, changing nothing else; with none queued it
/// finds nothing and changes nothing; on a closed connection it is refused and
/// changes nothing. Taking a queued message to send works the same way.
pub proof fn lemma_poll_takes_the_oldest<S>(v: ConnectionView<S>)
    ensures
        v.transactions.len() > 0 ==> poll_outcome(v, true) == (
            ConnectionView { transactions: v.transactions.drop_first(), ..v },
            Ok::<Option<web3::types::Transaction>, AlchemyWebsocketError>(
                Some(v.transactions[0]),
            ),
        ),
        v.transactions.len() == 0 ==> poll_outcome(v, true) == (
            v,
            Ok::<Option<web3::types::Transaction>, AlchemyWebsocketError>(None),
        ),
        poll_outcome(v, false) == (
            v,
            Err::<Option<web3::types::Transaction>, AlchemyWebsocketError>(
                AlchemyWebsocketError::ConnectionClosed,
            ),
        ),
        v.outgoing.len() > 0 ==> queue_pop(v.outgoing) == (
            v.outgoing.drop_first(),
            Some(v.outgoing[0]),
        ),
        v.outgoing.len() == 0 ==> queue_pop(v.outgoing) == (v.outgoing, None::<OutgoingMessage>),
{
    if v.transactions.len() == 0 {
        assert((ConnectionView { transactions: v.transactions, ..v }) == v);
    }
}

} // verus!
