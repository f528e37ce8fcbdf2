//! Network policy enforcement for the sandbox supervisor.

use vstd::prelude::*;

pub mod bytes;
pub mod host_gateway;
pub mod host_gateway_laws;
pub mod json;
pub mod json_access;
pub mod l7;
pub mod numeral;
pub mod opa;
pub mod text;
pub mod text_laws;
pub mod message_laws;

verus! {

} // verus!
