//! A JSON-RPC 2.0 endpoint library with the `Content-Length`-framed transport
//! used by the Language Server Protocol.
//!
//! The crate models JSON values with its own [`json::JsonValue`] type, parses
//! and serializes JSON-RPC 2.0 requests and responses against exact wire-text
//! specifications, frames messages for the LSP byte transport, and dispatches
//! inbound requests to registered method handlers through a
//! [`jsonrpc::Endpoint`] whose outbound stream is a sequence of whole
//! messages in submission order.

pub mod json;
pub mod jsonrpc;
pub mod jsonrpc_objects;
pub mod lsp_transport;
pub mod output_agent;
pub mod service_util;
