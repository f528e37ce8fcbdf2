//! JSON values as text.

use crate::json::{Json, JsonValue};
use crate::l7::mcp_inspection::to_wire;
use vstd::prelude::*;

verus! {

/// The text that `serde_json` writes for a value.
pub uninterp spec fn json_text(value: Json) -> Seq<char>;

/// `serde_json::Value` writes itself as compact JSON text, which depends on
/// the value alone.
#[verifier::external_body]
pub(crate) fn json_text_of(value: &JsonValue) -> (text: String)
    ensures
        text@ == json_text(value@),
{
    to_wire(value).to_string()
}

} // verus!
