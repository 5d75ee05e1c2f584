//! `ECHO <msg>` → the message, verbatim.

use vstd::prelude::*;

use crate::commands::CommandError;
use crate::resp::RespValues;
use crate::resp::lemma_seq_models;
use crate::resp::model::ValueModel;
use crate::resp::model::lemma_wf_array_elems;
use crate::resp::model::wf_model;
use crate::resp::seq_models;
use crate::resp::value_model;

verus! {

/// The echo command: exactly one payload argument, answered unchanged.
pub struct CommandEcho {}

/// What `ECHO` answers: the second element of a two-element request, a
/// wrong-arity error for any other length, and a malformed-request error
/// for anything that is not an array.
pub open spec fn echo_post(m: ValueModel, r: Result<Option<RespValues>, CommandError>) -> bool {
    match m {
        ValueModel::Array(elems) => if elems.len() == 2 {
            r matches Ok(Some(rv)) && value_model(rv) == elems[1]
        } else {
            r matches Err(e) && e == CommandError::WrongArity
        },
        _ => r matches Err(e) && e == CommandError::MalformedRequest,
    }
}

impl CommandEcho {
    /// Answers the payload argument exactly as it arrived.
    pub fn invoke(data: RespValues) -> (r: Result<Option<RespValues>, CommandError>)
        requires
            wf_model(value_model(data)),
        ensures
            echo_post(value_model(data), r),
            r matches Ok(Some(rv)) ==> wf_model(value_model(rv)),
    {
        match data {
            RespValues::Array(mut a) => {
                let ghost orig = a.values@;
                proof {
                    lemma_seq_models(orig);
                }
                if a.values.len() == 2 {
                    proof {
                        lemma_wf_array_elems(seq_models(orig));
                    }
                    let rv = a.values.remove(1);
                    proof {
                        assert(value_model(rv) == seq_models(orig)[1]);
                    }
                    Ok(Some(rv))
                } else {
                    Err(CommandError::WrongArity)
                }
            },
            _ => Err(CommandError::MalformedRequest),
        }
    }
}

} // verus!
