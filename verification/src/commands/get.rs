//! `GET <key>` → the live value as a bulk string, or null when the key is
//! absent or its entry has expired. Keys are byte strings: any payload a
//! bulk string can carry names an entry.

use vstd::prelude::*;
use vstd::slice::slice_to_vec;

use crate::commands::CommandError;
use crate::resp::RespValues;
use crate::resp::bulk_string::RespBulkString;
use crate::resp::lemma_seq_models;
use crate::resp::model::ValueModel;
use crate::resp::model::wf_model;
use crate::resp::value_model;
use crate::store::Store;
use crate::util::null_response;

verus! {

/// The read command: one key argument, answered from the store under the
/// liveness rule.
pub struct CommandGet {}

/// What `GET` answers against `store` at `now`: the value the store shows
/// under the key, null where it shows none, and an error for a request of
/// the wrong shape.
pub open spec fn get_post(
    m: ValueModel,
    store: Store,
    now: u64,
    r: Result<Option<RespValues>, CommandError>,
) -> bool {
    match m {
        ValueModel::Array(elems) => if elems.len() != 2 {
            r matches Err(e) && e == CommandError::WrongArity
        } else {
            match elems[1] {
                ValueModel::BulkString(kb) => match store.spec_get(kb, now) {
                    Some(v) => r matches Ok(Some(rv)) && value_model(rv) == ValueModel::BulkString(
                        v,
                    ),
                    None => r matches Ok(Some(rv)) && value_model(rv) == ValueModel::Null,
                },
                _ => r matches Err(e) && e == CommandError::ExpectedBulkString,
            }
        },
        _ => r matches Err(e) && e == CommandError::MalformedRequest,
    }
}

impl CommandGet {
    /// Reads the key and answers what the store shows at `now`.
    pub fn invoke(data: &RespValues, store: &Store, now: u64) -> (r: Result<
        Option<RespValues>,
        CommandError,
    >)
        ensures
            get_post(value_model(*data), *store, now, r),
            r matches Ok(Some(rv)) ==> wf_model(value_model(rv)),
    {
        match data {
            RespValues::Array(a) => {
                proof {
                    lemma_seq_models(a.values@);
                }
                if a.values.len() != 2 {
                    return Err(CommandError::WrongArity);
                }
                match &a.values[1] {
                    RespValues::BulkString(b) => {
                        match store.get(b.values.as_slice(), now) {
                            Some(v) => Ok(
                                Some(
                                    RespValues::BulkString(
                                        RespBulkString::from_raw(slice_to_vec(v.as_slice())),
                                    ),
                                ),
                            ),
                            None => Ok(Some(null_response())),
                        }
                    },
                    _ => Err(CommandError::ExpectedBulkString),
                }
            },
            _ => Err(CommandError::MalformedRequest),
        }
    }
}

} // verus!
