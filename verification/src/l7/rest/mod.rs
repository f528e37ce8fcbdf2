//! HTTP responses on their way back to the client.

pub mod head;
pub mod parsed_head;
pub mod output;
pub mod relay;
pub mod reader;
pub mod payload;
pub mod body;
pub mod middleware;
pub mod events;
pub mod event_laws;
pub mod wire_laws;
pub mod delivery_laws;
pub mod relay_laws;
pub mod head_laws;
