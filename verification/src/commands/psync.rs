//! `PSYNC <replid> <offset>`: the master's side of the final handshake
//! step. A peer claiming a full resync (`? -1`) is answered
//! `FULLRESYNC <replication-id> 0`; any other claim gets no reply, since
//! streaming is out of scope.

use vstd::prelude::*;
use vstd::string::StringExecFns;
use vstd::utf8::is_ascii_chars;
use vstd::utf8::valid_utf8;

use crate::commands::CommandError;
use crate::replication::ReplicationInfo;
use crate::resp::RespValues;
use crate::resp::lemma_seq_models;
use crate::resp::model::ValueModel;
use crate::resp::model::all_digit_bytes;
use crate::resp::model::chars_to_bytes;
use crate::resp::model::dec_value;
use crate::resp::model::lemma_no_crlf_concat;
use crate::resp::model::no_crlf_chars;
use crate::resp::model::wf_model;
use crate::resp::parse_decimal;
use crate::resp::simple_string::RespSimpleString;
use crate::resp::value_model;
use crate::util::name_is;
use crate::util::slice_all_digits;

verus! {

/// The resynchronization command.
pub struct CommandPsync {}

/// The integer a signed decimal byte string denotes: an optional leading
/// minus sign, then at least one digit.
pub open spec fn spec_parse_signed(b: Seq<u8>) -> Option<int> {
    if b.len() >= 2 && b[0] == 45 {
        let rest = b.subrange(1, b.len() as int);
        if all_digit_bytes(rest) {
            Some(-dec_value(rest))
        } else {
            None
        }
    } else if b.len() > 0 && all_digit_bytes(b) {
        Some(dec_value(b))
    } else {
        None
    }
}

/// What `PSYNC` answers against the replication identity `info`: the full
/// resync line for a `? -1` claim, no reply for any other well-formed
/// claim, and an error for a request of the wrong shape.
pub open spec fn psync_post(
    m: ValueModel,
    info: ReplicationInfo,
    r: Result<Option<RespValues>, CommandError>,
) -> bool {
    match m {
        ValueModel::Array(elems) => if elems.len() != 3 {
            r matches Err(e) && e == CommandError::WrongArity
        } else {
            match (elems[1], elems[2]) {
                (ValueModel::BulkString(rb), ValueModel::BulkString(ob)) => {
                    if !valid_utf8(rb) {
                        r matches Err(e) && e == CommandError::NonUtf8Argument
                    } else {
                        match spec_parse_signed(ob) {
                            None => r matches Err(e) && e == CommandError::BadInteger,
                            Some(off) => if rb == chars_to_bytes("?"@) && off == -1 {
                                r matches Ok(Some(rv)) && value_model(rv)
                                    == ValueModel::SimpleString(
                                    "FULLRESYNC "@ + info.master_replid@ + " 0"@,
                                )
                            } else {
                                r matches Ok(o) && o is None
                            },
                        }
                    }
                },
                _ => r matches Err(e) && e == CommandError::ExpectedBulkString,
            }
        },
        _ => r matches Err(e) && e == CommandError::MalformedRequest,
    }
}

impl CommandPsync {
    /// Answers a full-resync claim with this process's replication id and
    /// a zero offset.
    pub fn invoke(data: &RespValues, info: &ReplicationInfo) -> (r: Result<
        Option<RespValues>,
        CommandError,
    >)
        requires
            is_ascii_chars(info.master_replid@),
            no_crlf_chars(info.master_replid@),
        ensures
            psync_post(value_model(*data), *info, r),
            r matches Ok(Some(rv)) ==> wf_model(value_model(rv)),
    {
        proof {
            reveal_strlit("?");
            reveal_strlit("FULLRESYNC ");
            reveal_strlit(" 0");
        }
        match data {
            RespValues::Array(a) => {
                proof {
                    lemma_seq_models(a.values@);
                }
                if a.values.len() != 3 {
                    return Err(CommandError::WrongArity);
                }
                let (rb, ob) = match (&a.values[1], &a.values[2]) {
                    (RespValues::BulkString(rb), RespValues::BulkString(ob)) => (rb, ob),
                    _ => {
                        return Err(CommandError::ExpectedBulkString);
                    },
                };
                if crate::util::utf8_bytes_to_string(rb.values.as_slice()).is_none() {
                    return Err(CommandError::NonUtf8Argument);
                }
                let olen = ob.values.len();
                let minus = olen >= 2 && ob.values[0] == 45;
                let claims_minus_one: bool;
                if minus {
                    if !slice_all_digits(ob.values.as_slice(), 1, olen) {
                        return Err(CommandError::BadInteger);
                    }
                    match parse_decimal(ob.values.as_slice(), 1, olen, u64::MAX) {
                        Some(v) => {
                            claims_minus_one = v == 1;
                        },
                        None => {
                            // the digits spell a number too large to be one
                            proof {
                                crate::resp::model::lemma_dec_value_nonneg(
                                    ob.values@.subrange(1, olen as int),
                                );
                            }
                            claims_minus_one = false;
                        },
                    }
                } else {
                    if !slice_all_digits(ob.values.as_slice(), 0, olen) {
                        proof {
                            assert(ob.values@.subrange(0, olen as int) =~= ob.values@);
                        }
                        return Err(CommandError::BadInteger);
                    }
                    proof {
                        assert(ob.values@.subrange(0, olen as int) =~= ob.values@);
                        crate::resp::model::lemma_dec_value_nonneg(ob.values@);
                    }
                    // a nonnegative offset never claims a full resync
                    claims_minus_one = false;
                }
                if claims_minus_one && name_is(rb.values.as_slice(), "?") {
                    let mut line = String::from_str("FULLRESYNC ");
                    line.append(info.master_replid.as_str());
                    line.append(" 0");
                    proof {
                        let full = "FULLRESYNC "@ + info.master_replid@ + " 0"@;
                        assert(line@ == full);
                        assert forall|j: int| 0 <= j < full.len() implies '\0' <= #[trigger] full[j]
                            <= '\u{7f}' by {}
                        lemma_no_crlf_concat("FULLRESYNC "@, info.master_replid@);
                        lemma_no_crlf_concat("FULLRESYNC "@ + info.master_replid@, " 0"@);
                    }
                    Ok(Some(RespValues::SimpleString(RespSimpleString { value: line })))
                } else {
                    Ok(None)
                }
            },
            _ => Err(CommandError::MalformedRequest),
        }
    }
}

} // verus!
