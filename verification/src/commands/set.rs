//! `SET <key> <value> [<option> <value>]...` → `OK`.
//!
//! Options come in name/value pairs after the mandatory key and value; only
//! `PX` (an expiry in milliseconds, matched without regard to ASCII case) is
//! consumed, later occurrences win, and other names are read over and
//! ignored. An option name without a value is refused.

use vstd::prelude::*;
use vstd::slice::slice_to_vec;

use crate::commands::CommandError;
use crate::commands::lower_bytes;
use crate::commands::lower_bytes_exec;
use crate::resp::RespValues;
use crate::resp::lemma_seq_models;
use crate::resp::model::ValueModel;
use crate::resp::model::all_digit_bytes;
use crate::resp::model::chars_to_bytes;
use crate::resp::model::dec_value;
use crate::resp::model::spec_parse_len;
use crate::resp::model::wf_model;
use crate::resp::parse_decimal;
use crate::resp::seq_models;
use crate::resp::value_model;
use crate::store::Store;
use crate::util::name_is;
use crate::util::ok_response;

verus! {

/// The write command.
pub struct CommandSet {}

/// The expiry the option pairs from `i` onward select: the value of the
/// last `PX` option — its name compared by ASCII-lowercase fold, like every
/// command name — parsed as milliseconds, or nothing. Pairs must be bulk
/// strings and complete; only the winning `PX` value is parsed.
pub open spec fn spec_set_options(elems: Seq<ValueModel>, i: int) -> Result<
    Option<int>,
    CommandError,
>
    decreases elems.len() - i,
{
    if i >= elems.len() {
        Ok(None)
    } else if i + 1 >= elems.len() {
        Err(CommandError::WrongArity)
    } else {
        match (elems[i], elems[i + 1]) {
            (ValueModel::BulkString(name), ValueModel::BulkString(val)) => {
                match spec_set_options(elems, i + 2) {
                    Ok(rest) => {
                        if lower_bytes(name) == chars_to_bytes("px"@) {
                            match rest {
                                Some(v) => Ok(Some(v)),
                                None => {
                                    if val.len() > 0 && all_digit_bytes(val) && dec_value(val)
                                        <= u64::MAX {
                                        Ok(Some(dec_value(val)))
                                    } else {
                                        Err(CommandError::BadInteger)
                                    }
                                },
                            }
                        } else {
                            Ok(rest)
                        }
                    },
                    Err(e) => Err(e),
                }
            },
            _ => Err(CommandError::ExpectedBulkString),
        }
    }
}

/// What `SET` does to the store and answers: the key now maps to the value
/// with a fresh creation time and exactly the expiry the options selected;
/// every other key is untouched; the reply is `OK`. Requests of the wrong
/// shape leave the store as it was and answer the matching error.
pub open spec fn set_post(
    m: ValueModel,
    old_store: Store,
    new_store: Store,
    now: u64,
    r: Result<Option<RespValues>, CommandError>,
) -> bool {
    match m {
        ValueModel::Array(elems) => if elems.len() < 3 {
            r matches Err(e) && e == CommandError::WrongArity && new_store == old_store
        } else {
            match (elems[1], elems[2]) {
                (ValueModel::BulkString(kb), ValueModel::BulkString(vb)) => {
                    match spec_set_options(elems, 3) {
                        Err(e) => r matches Err(e2) && e2 == e && new_store == old_store,
                        Ok(px) => {
                            &&& r matches Ok(Some(rv)) && value_model(rv)
                                == ValueModel::SimpleString("OK"@)
                            &&& match new_store.spec_entry(kb) {
                                Some(sv) => {
                                    &&& sv.value@ == vb
                                    &&& sv.created_at == now
                                    &&& match px {
                                        Some(p) => sv.expiry_time == Some(p as u64),
                                        None => sv.expiry_time is None,
                                    }
                                },
                                None => false,
                            }
                            &&& forall|k: Seq<u8>|
                                k != kb ==> #[trigger] new_store.spec_entry(k)
                                    == old_store.spec_entry(k)
                        },
                    }
                },
                _ => r matches Err(e) && e == CommandError::ExpectedBulkString && new_store
                    == old_store,
            }
        },
        _ => r matches Err(e) && e == CommandError::MalformedRequest && new_store == old_store,
    }
}

/// The expiry selected by the option pairs from `i` onward, read exactly as
/// [`spec_set_options`] states it.
fn scan_options(vs: &Vec<RespValues>, i: usize) -> (r: Result<Option<u64>, CommandError>)
    ensures
        ({
            let s = spec_set_options(seq_models(vs@), i as int);
            match r {
                Ok(Some(v)) => s == Result::<Option<int>, CommandError>::Ok(Some(v as int)),
                Ok(None) => s == Result::<Option<int>, CommandError>::Ok(None),
                Err(e) => s == Result::<Option<int>, CommandError>::Err(e),
            }
        }),
    decreases vs@.len() - i,
{
    proof {
        lemma_seq_models(vs@);
        reveal_strlit("px");
    }
    if i >= vs.len() {
        return Ok(None);
    }
    if i + 1 >= vs.len() {
        return Err(CommandError::WrongArity);
    }
    let (name, val) = match (&vs[i], &vs[i + 1]) {
        (RespValues::BulkString(name), RespValues::BulkString(val)) => (name, val),
        _ => {
            return Err(CommandError::ExpectedBulkString);
        },
    };
    match scan_options(vs, i + 2) {
        Ok(rest) => {
            let lowered_name = lower_bytes_exec(name.values.as_slice());
            if name_is(lowered_name.as_slice(), "px") {
                match rest {
                    Some(v) => Ok(Some(v)),
                    None => {
                        match parse_decimal(val.values.as_slice(), 0, val.values.len(), u64::MAX) {
                            Some(ms) => {
                                proof {
                                    assert(val.values@.subrange(0, val.values@.len() as int)
                                        =~= val.values@);
                                }
                                Ok(Some(ms))
                            },
                            None => {
                                proof {
                                    assert(val.values@.subrange(0, val.values@.len() as int)
                                        =~= val.values@);
                                }
                                Err(CommandError::BadInteger)
                            },
                        }
                    },
                }
            } else {
                Ok(rest)
            }
        },
        Err(e) => Err(e),
    }
}

impl CommandSet {
    /// Stores the value under the key with the expiry the options select,
    /// and answers `OK`.
    pub fn invoke(data: &RespValues, store: &mut Store, now: u64) -> (r: Result<
        Option<RespValues>,
        CommandError,
    >)
        requires
            old(store).wf(),
        ensures
            final (store).wf(),
            set_post(value_model(*data), *old(store), *final (store), now, r),
            r matches Ok(Some(rv)) ==> wf_model(value_model(rv)),
    {
        match data {
            RespValues::Array(a) => {
                proof {
                    lemma_seq_models(a.values@);
                }
                if a.values.len() < 3 {
                    return Err(CommandError::WrongArity);
                }
                let (kb, vb) = match (&a.values[1], &a.values[2]) {
                    (RespValues::BulkString(kb), RespValues::BulkString(vb)) => (kb, vb),
                    _ => {
                        return Err(CommandError::ExpectedBulkString);
                    },
                };
                let expiry_time = match scan_options(&a.values, 3) {
                    Ok(px) => px,
                    Err(e) => {
                        return Err(e);
                    },
                };
                let key = slice_to_vec(kb.values.as_slice());
                let value = slice_to_vec(vb.values.as_slice());
                store.set(key, value, expiry_time, now);
                Ok(Some(ok_response()))
            },
            _ => Err(CommandError::MalformedRequest),
        }
    }
}

} // verus!
