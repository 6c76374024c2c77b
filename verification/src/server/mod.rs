//! What the backend's gRPC services decide: which requests go ahead, and
//! what the refused ones are answered with.
pub mod configs;
pub mod events;
pub mod management;
pub mod managment;

use crate::status::{Code, Status};
use crate::text::{debug_form, str_debug_form};
use vstd::prelude::*;

verus! {

/// The message for a config that has no file: `Config "<id>" not found`,
/// the id written as `{:?}` writes it.
pub open spec fn config_not_found_message(config_id: Seq<char>) -> Seq<char> {
    "Config "@ + str_debug_form(config_id) + " not found"@
}

/// The answer to a request for a config that has no file.
pub fn config_not_found(config_id: &str) -> (r: Status)
    ensures
        r.code == Code::NotFound,
        r.message@ == config_not_found_message(config_id@),
{
    let mut message = "Config ".to_string();
    let quoted = debug_form(config_id);
    message.append(quoted.as_str());
    message.append(" not found");
    Status::new(Code::NotFound, message)
}

} // verus!
