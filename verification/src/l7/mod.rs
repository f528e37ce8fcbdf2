//! Inspection of application-layer traffic.

pub mod duplicate;
pub mod call_laws;
pub mod inspection_laws;
pub mod json_text;
pub mod jsonrpc;
pub mod mcp;
pub mod mcp_inspection;
pub mod mcp_laws;
pub mod mcp_payload;
pub mod protocol;
pub mod provider;
pub mod rest;
