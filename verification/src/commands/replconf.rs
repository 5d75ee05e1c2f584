//! `REPLCONF listening-port <port>` and `REPLCONF capa <token>...`: the
//! two-message registration a slave performs against a master.
//!
//! The listening port must arrive first and fills the connection's pending
//! record; the capability message commits the completed record to the
//! registry and resets the pending record, so one connection can never
//! commit the same registration twice.

use vstd::prelude::*;
use vstd::utf8::encode_utf8;
use vstd::utf8::valid_utf8;

use crate::commands::CommandError;
use crate::replication::PendingSlave;
use crate::replication::ReplicationConfiguration;
use crate::replication::ReplicationRole;
use crate::replication::ReplicationSlave;
use crate::resp::RespValues;
use crate::resp::lemma_seq_models;
use crate::resp::model::ValueModel;
use crate::resp::model::chars_to_bytes;
use crate::resp::model::dec_digits;
use crate::resp::model::lemma_dec_digits;
use crate::resp::model::spec_parse_len;
use crate::resp::model::wf_model;
use crate::resp::parse_decimal;
use crate::resp::seq_models;
use crate::resp::value_model;
use crate::util::utf8_bytes_to_string;
use crate::util::name_is;
use crate::util::ok_response;

verus! {

/// The registration command.
pub struct CommandReplconf {}

/// The byte strings a list of capability tokens encodes: the tokens as
/// the wire carried them.
pub open spec fn caps_bytes(caps: Seq<String>) -> Seq<Seq<u8>> {
    caps.map_values(|c: String| encode_utf8(c@))
}

/// The capability token byte strings the pairs from `i` onward carry:
/// every pair is two bulk strings, every name is literally `capa`, every
/// token is valid UTF-8 text.
pub open spec fn spec_capa_tokens(elems: Seq<ValueModel>, i: int) -> Result<
    Seq<Seq<u8>>,
    CommandError,
>
    decreases elems.len() - i,
{
    if i >= elems.len() {
        Ok(Seq::empty())
    } else if i + 1 >= elems.len() {
        Err(CommandError::WrongArity)
    } else {
        match (elems[i], elems[i + 1]) {
            (ValueModel::BulkString(k), ValueModel::BulkString(v)) => {
                if k != chars_to_bytes("capa"@) {
                    Err(CommandError::UnknownReplconfStage)
                } else if !valid_utf8(v) {
                    Err(CommandError::NonUtf8Argument)
                } else {
                    match spec_capa_tokens(elems, i + 2) {
                        Ok(rest) => Ok(seq![v] + rest),
                        Err(e) => Err(e),
                    }
                }
            },
            _ => Err(CommandError::ExpectedBulkString),
        }
    }
}

/// What one `REPLCONF` message does, as a function of the message, the
/// connection's pending port and the process role: on success the reply is
/// `OK`, the pending port becomes the first component, and the second names
/// the record committed to the registry, if this message committed one.
pub open spec fn spec_replconf(
    m: ValueModel,
    pending: Option<u16>,
    role: ReplicationRole,
) -> Result<(Option<u16>, Option<(u16, Seq<Seq<u8>>)>), CommandError> {
    match m {
        ValueModel::Array(elems) => if elems.len() < 3 {
            Err(CommandError::WrongArity)
        } else {
            match elems[1] {
                ValueModel::BulkString(stage) => {
                    if stage == chars_to_bytes("listening-port"@) {
                        match elems[2] {
                            ValueModel::BulkString(pb) => {
                                match spec_parse_len(pb) {
                                    Some(p) => if p <= 65535 {
                                        if pending is Some {
                                            Err(CommandError::ReplconfOutOfOrder)
                                        } else {
                                            Ok((Some(p as u16), None))
                                        }
                                    } else {
                                        Err(CommandError::BadInteger)
                                    },
                                    None => Err(CommandError::BadInteger),
                                }
                            },
                            _ => Err(CommandError::ExpectedBulkString),
                        }
                    } else if stage == chars_to_bytes("capa"@) {
                        match pending {
                            Some(p) => match spec_capa_tokens(elems, 1) {
                                Ok(caps) => if role is Master {
                                    Ok((None, Some((p, caps))))
                                } else {
                                    Err(CommandError::NotMaster)
                                },
                                Err(e) => Err(e),
                            },
                            None => Err(CommandError::ReplconfOutOfOrder),
                        }
                    } else {
                        Err(CommandError::UnknownReplconfStage)
                    }
                },
                _ => Err(CommandError::ExpectedBulkString),
            }
        },
        _ => Err(CommandError::MalformedRequest),
    }
}

/// What `REPLCONF` answers and changes, tying the executable outcome to
/// [`spec_replconf`]: on success the pending port moves as the spec says
/// and exactly the committed record, if any, is appended to the registry;
/// on an error nothing changes.
pub open spec fn replconf_post(
    m: ValueModel,
    old_pending: PendingSlave,
    new_pending: PendingSlave,
    old_config: ReplicationConfiguration,
    new_config: ReplicationConfiguration,
    role: ReplicationRole,
    r: Result<Option<RespValues>, CommandError>,
) -> bool {
    match spec_replconf(m, old_pending.port, role) {
        Ok((np, committed)) => {
            &&& r matches Ok(Some(rv)) && value_model(rv) == ValueModel::SimpleString("OK"@)
            &&& new_pending.port == np
            &&& match committed {
                Some((p, caps)) => {
                    &&& new_config.slaves@.len() == old_config.slaves@.len() + 1
                    &&& new_config.slaves@.subrange(0, old_config.slaves@.len() as int)
                        == old_config.slaves@
                    &&& new_config.slaves@.last().port == p
                    &&& caps_bytes(new_config.slaves@.last().capabilities@) == caps
                },
                None => new_config == old_config,
            }
        },
        Err(e) => r matches Err(e2) && e2 == e && new_pending == old_pending && new_config
            == old_config,
    }
}

/// The registry invariant: a slave that sends `REPLCONF listening-port P`
/// from a fresh connection and then `REPLCONF capa C1 capa C2` commits
/// exactly one record, holding port `P` and capabilities `[C1, C2]`, and
/// leaves the connection's pending record reset — never a partial record,
/// and never the same registration twice, since the second message finds
/// the pending port cleared. The tokens may be any valid UTF-8 text.
pub proof fn lemma_slave_registration(port: u16, c1: Seq<u8>, c2: Seq<u8>)
    requires
        valid_utf8(c1),
        valid_utf8(c2),
    ensures
        spec_replconf(
            ValueModel::Array(
                seq![
                    ValueModel::BulkString(chars_to_bytes("REPLCONF"@)),
                    ValueModel::BulkString(chars_to_bytes("listening-port"@)),
                    ValueModel::BulkString(dec_digits(port as nat)),
                ],
            ),
            None,
            ReplicationRole::Master,
        ) == Result::<(Option<u16>, Option<(u16, Seq<Seq<u8>>)>), CommandError>::Ok(
            (Some(port), None),
        ),
        spec_replconf(
            ValueModel::Array(
                seq![
                    ValueModel::BulkString(chars_to_bytes("REPLCONF"@)),
                    ValueModel::BulkString(chars_to_bytes("capa"@)),
                    ValueModel::BulkString(c1),
                    ValueModel::BulkString(chars_to_bytes("capa"@)),
                    ValueModel::BulkString(c2),
                ],
            ),
            Some(port),
            ReplicationRole::Master,
        ) == Result::<(Option<u16>, Option<(u16, Seq<Seq<u8>>)>), CommandError>::Ok(
            (None, Some((port, seq![c1, c2]))),
        ),
{
    reveal_strlit("REPLCONF");
    reveal_strlit("listening-port");
    reveal_strlit("capa");
    lemma_dec_digits(port as nat);
    let m1 = ValueModel::Array(
        seq![
            ValueModel::BulkString(chars_to_bytes("REPLCONF"@)),
            ValueModel::BulkString(chars_to_bytes("listening-port"@)),
            ValueModel::BulkString(dec_digits(port as nat)),
        ],
    );
    assert(spec_parse_len(dec_digits(port as nat)) == Some(port as int));
    assert(spec_replconf(m1, None, ReplicationRole::Master) == Result::<
        (Option<u16>, Option<(u16, Seq<Seq<u8>>)>),
        CommandError,
    >::Ok((Some(port), None)));
    let m2 = ValueModel::Array(
        seq![
            ValueModel::BulkString(chars_to_bytes("REPLCONF"@)),
            ValueModel::BulkString(chars_to_bytes("capa"@)),
            ValueModel::BulkString(c1),
            ValueModel::BulkString(chars_to_bytes("capa"@)),
            ValueModel::BulkString(c2),
        ],
    );
    let elems = m2->Array_0;
    assert(chars_to_bytes("capa"@) != chars_to_bytes("listening-port"@)) by {
        assert(chars_to_bytes("capa"@).len() == 4);
        assert(chars_to_bytes("listening-port"@).len() == 14);
    }
    assert(spec_capa_tokens(elems, 5) == Result::<Seq<Seq<u8>>, CommandError>::Ok(
        Seq::empty(),
    ));
    assert(spec_capa_tokens(elems, 3) == Result::<Seq<Seq<u8>>, CommandError>::Ok(
        seq![c2] + Seq::<Seq<u8>>::empty(),
    ));
    assert(seq![c2] + Seq::<Seq<u8>>::empty() =~= seq![c2]);
    assert(spec_capa_tokens(elems, 1) == Result::<Seq<Seq<u8>>, CommandError>::Ok(
        seq![c1] + seq![c2],
    ));
    assert(seq![c1] + seq![c2] =~= seq![c1, c2]);
}

/// The capability tokens of the pairs from `i` onward, read exactly as
/// [`spec_capa_tokens`] states them.
fn capa_tokens(vs: &Vec<RespValues>, i: usize) -> (r: Result<Vec<String>, CommandError>)
    ensures
        ({
            let s = spec_capa_tokens(seq_models(vs@), i as int);
            match r {
                Ok(caps) => s == Result::<Seq<Seq<u8>>, CommandError>::Ok(caps_bytes(caps@)),
                Err(e) => s == Result::<Seq<Seq<u8>>, CommandError>::Err(e),
            }
        }),
    decreases vs@.len() - i,
{
    proof {
        lemma_seq_models(vs@);
        reveal_strlit("capa");
    }
    if i >= vs.len() {
        let caps: Vec<String> = Vec::new();
        proof {
            assert(caps_bytes(caps@) =~= Seq::<Seq<u8>>::empty());
        }
        return Ok(caps);
    }
    if i + 1 >= vs.len() {
        return Err(CommandError::WrongArity);
    }
    let (k, v) = match (&vs[i], &vs[i + 1]) {
        (RespValues::BulkString(k), RespValues::BulkString(v)) => (k, v),
        _ => {
            return Err(CommandError::ExpectedBulkString);
        },
    };
    if !name_is(k.values.as_slice(), "capa") {
        return Err(CommandError::UnknownReplconfStage);
    }
    let token = match utf8_bytes_to_string(v.values.as_slice()) {
        Some(token) => token,
        None => {
            return Err(CommandError::NonUtf8Argument);
        },
    };
    proof {
        vstd::utf8::decode_utf8_encode_utf8(v.values@);
    }
    match capa_tokens(vs, i + 2) {
        Ok(mut caps) => {
            let ghost tail = caps@;
            caps.insert(0, token);
            proof {
                assert(caps_bytes(caps@) =~= seq![v.values@] + caps_bytes(tail));
            }
            Ok(caps)
        },
        Err(e) => Err(e),
    }
}

impl CommandReplconf {
    /// Applies one registration message to this connection's pending record
    /// and, when it completes one, commits it to the registry.
    pub fn invoke(
        data: &RespValues,
        pending: &mut PendingSlave,
        config: &mut ReplicationConfiguration,
        role: ReplicationRole,
    ) -> (r: Result<Option<RespValues>, CommandError>)
        ensures
            replconf_post(
                value_model(*data),
                *old(pending),
                *final (pending),
                *old(config),
                *final (config),
                role,
                r,
            ),
            r matches Ok(Some(rv)) ==> wf_model(value_model(rv)),
    {
        proof {
            reveal_strlit("listening-port");
            reveal_strlit("capa");
        }
        match data {
            RespValues::Array(a) => {
                proof {
                    lemma_seq_models(a.values@);
                }
                if a.values.len() < 3 {
                    return Err(CommandError::WrongArity);
                }
                let stage = match &a.values[1] {
                    RespValues::BulkString(stage) => stage,
                    _ => {
                        return Err(CommandError::ExpectedBulkString);
                    },
                };
                if name_is(stage.values.as_slice(), "listening-port") {
                    let pb = match &a.values[2] {
                        RespValues::BulkString(pb) => pb,
                        _ => {
                            return Err(CommandError::ExpectedBulkString);
                        },
                    };
                    proof {
                        assert(pb.values@.subrange(0, pb.values@.len() as int) =~= pb.values@);
                    }
                    match parse_decimal(pb.values.as_slice(), 0, pb.values.len(), 65535) {
                        Some(p) => {
                            if pending.port.is_some() {
                                Err(CommandError::ReplconfOutOfOrder)
                            } else {
                                pending.port = Some(p as u16);
                                Ok(Some(ok_response()))
                            }
                        },
                        None => Err(CommandError::BadInteger),
                    }
                } else if name_is(stage.values.as_slice(), "capa") {
                    let p = match pending.port {
                        Some(p) => p,
                        None => {
                            return Err(CommandError::ReplconfOutOfOrder);
                        },
                    };
                    match capa_tokens(&a.values, 1) {
                        Ok(caps) => {
                            if matches!(role, ReplicationRole::Master) {
                                let record = ReplicationSlave { port: p, capabilities: caps };
                                let ghost before = config.slaves@;
                                config.add_replication_slave(record);
                                pending.port = None;
                                proof {
                                    assert(config.slaves@.subrange(0, before.len() as int)
                                        =~= before);
                                }
                                Ok(Some(ok_response()))
                            } else {
                                Err(CommandError::NotMaster)
                            }
                        },
                        Err(e) => Err(e),
                    }
                } else {
                    Err(CommandError::UnknownReplconfStage)
                }
            },
            _ => Err(CommandError::MalformedRequest),
        }
    }
}

} // verus!
