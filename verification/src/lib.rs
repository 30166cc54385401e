//! Client-side logic for Alchemy's filtered pending-transaction websocket feed:
//! Ethereum address parsing, JSON-RPC request framing, classification of incoming
//! messages and the bookkeeping of a live subscription connection.

pub mod json;
pub mod block_util;
pub mod alchemy_pending_transactions_messages;
pub mod subscription_registry;
pub mod alchemy_pending_transactions_websocket;
pub mod laws;
pub mod text_laws;
