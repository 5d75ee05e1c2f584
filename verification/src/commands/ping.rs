//! `PING` → `PONG`.

use vstd::prelude::*;

use crate::resp::RespValues;
use crate::resp::model::ValueModel;
use crate::resp::model::wf_model;
use crate::resp::value_model;
use crate::util::ping_response;

verus! {

/// The liveness probe; it reads nothing and answers `PONG`.
pub struct CommandPing {}

impl CommandPing {
    /// Answers `PONG`, whatever the request carried beyond its name.
    pub fn invoke() -> (r: RespValues)
        ensures
            value_model(r) == ValueModel::SimpleString("PONG"@),
            wf_model(value_model(r)),
    {
        ping_response()
    }
}

} // verus!
