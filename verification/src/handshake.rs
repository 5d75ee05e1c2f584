//! The slave side of the replication bootstrap: a four-step exchange over
//! one connection — `PING`, `REPLCONF listening-port`, `REPLCONF capa`,
//! `PSYNC ? -1` — each step sent only after the previous reply arrived and
//! matched. Any other reply is fatal: the machine answers an error and
//! sends nothing further.
//!
//! The machine here only decides; the caller moves the bytes: it sends the
//! request this module hands it, reads one reply, and feeds it back.

use vstd::prelude::*;
use vstd::string::StringExecFns;
use vstd::string::StringExecFnsIsAscii;
use vstd::string::StringSliceAdditionalSpecFns;
use vstd::utf8::is_ascii_chars;

use crate::replication::ReplicationInfo;
use crate::resp::RespValues;
use crate::resp::array::RespArray;
use crate::resp::bulk_string::RespBulkString;
use crate::resp::lemma_seq_models;
use crate::resp::model::ValueModel;
use crate::resp::model::chars_to_bytes;
use crate::resp::model::dec_digits;
use crate::resp::model::lemma_dec_digits;
use crate::resp::model::spec_parse_len;
use crate::resp::model::wf_model;
use crate::resp::parse_decimal;
use crate::resp::push_decimal;
use crate::resp::seq_models;
use crate::resp::value_model;
use crate::util::ascii_bytes_to_string;
use crate::util::name_is;

verus! {

/// Where the exchange stands: which reply it waits for, or that it is done.
#[derive(Clone, Copy, PartialEq, Eq, Structural, Debug)]
pub enum HandshakeStage {
    AwaitPong,
    AwaitPortAck,
    AwaitCapaAck,
    AwaitFullresync,
    Done,
}

/// Why the handshake aborted. Every abort is fatal to the bootstrap: no
/// retry exists.
#[derive(Clone, Copy, PartialEq, Eq, Structural, Debug)]
pub enum HandshakeError {
    /// The master answered something other than the reply this step expects.
    UnexpectedReply,
    /// The final status line was not a full-resync announcement.
    UnrecognizedResponse,
}

/// The first request: `PING`, as an array of one bulk string.
pub open spec fn ping_request_model() -> ValueModel {
    ValueModel::Array(seq![ValueModel::BulkString(chars_to_bytes("ping"@))])
}

/// The second request: `REPLCONF listening-port <own port>`.
pub open spec fn port_request_model(port: u16) -> ValueModel {
    ValueModel::Array(
        seq![
            ValueModel::BulkString(chars_to_bytes("REPLCONF"@)),
            ValueModel::BulkString(chars_to_bytes("listening-port"@)),
            ValueModel::BulkString(dec_digits(port as nat)),
        ],
    )
}

/// The third request: `REPLCONF capa psync2`.
pub open spec fn capa_request_model() -> ValueModel {
    ValueModel::Array(
        seq![
            ValueModel::BulkString(chars_to_bytes("REPLCONF"@)),
            ValueModel::BulkString(chars_to_bytes("capa"@)),
            ValueModel::BulkString(chars_to_bytes("psync2"@)),
        ],
    )
}

/// The fourth request: `PSYNC ? -1`, claiming a full resync.
pub open spec fn psync_request_model() -> ValueModel {
    ValueModel::Array(
        seq![
            ValueModel::BulkString(chars_to_bytes("PSYNC"@)),
            ValueModel::BulkString(chars_to_bytes("?"@)),
            ValueModel::BulkString(chars_to_bytes("-1"@)),
        ],
    )
}

/// The index of the first occurrence of `target` at or after `from`.
pub open spec fn find_byte(s: Seq<u8>, from: int, target: u8) -> Option<int>
    decreases s.len() - from,
{
    if from < 0 || from >= s.len() {
        None
    } else if s[from] == target {
        Some(from)
    } else {
        find_byte(s, from + 1, target)
    }
}

/// What a successful search means: the byte at `i` and nowhere before.
pub proof fn lemma_find_byte_some(s: Seq<u8>, from: int, target: u8, i: int)
    requires
        find_byte(s, from, target) == Some(i),
    ensures
        from <= i < s.len(),
        s[i] == target,
        forall|j: int| from <= j < i ==> #[trigger] s[j] != target,
    decreases s.len() - from,
{
    if !(from < 0 || from >= s.len()) && s[from] != target {
        lemma_find_byte_some(s, from + 1, target, i);
    }
}

/// Conversely: the byte at `i` with none before is what the search returns.
pub proof fn lemma_find_byte_at(s: Seq<u8>, from: int, target: u8, i: int)
    requires
        0 <= from <= i < s.len(),
        s[i] == target,
        forall|j: int| from <= j < i ==> #[trigger] s[j] != target,
    ensures
        find_byte(s, from, target) == Some(i),
    decreases i - from,
{
    if from < i {
        lemma_find_byte_at(s, from + 1, target, i);
    }
}

/// A search over a region without the byte fails.
pub proof fn lemma_find_byte_none(s: Seq<u8>, from: int, target: u8)
    requires
        forall|j: int| from <= j < s.len() ==> #[trigger] s[j] != target,
    ensures
        find_byte(s, from, target) is None,
    decreases s.len() - from,
{
    if !(from < 0 || from >= s.len()) {
        lemma_find_byte_none(s, from + 1, target);
    }
}

/// Executable counterpart of [`find_byte`].
fn find_byte_exec(data: &[u8], from: usize, target: u8) -> (r: Option<usize>)
    ensures
        match r {
            Some(i) => find_byte(data@, from as int, target) == Some(i as int) && from <= i < data@.len(),
            None => find_byte(data@, from as int, target) is None,
        },
{
    let mut k: usize = from;
    while k < data.len()
        invariant
            from <= k,
            forall|j: int| from <= j < k ==> #[trigger] data@[j] != target,
        decreases data@.len() - k,
    {
        if data[k] == target {
            proof {
                lemma_find_byte_at(data@, from as int, target, k as int);
            }
            return Some(k);
        }
        k = k + 1;
    }
    proof {
        lemma_find_byte_none(data@, from as int, target);
    }
    None
}

/// What a full-resync status line announces: the text must be ASCII of the
/// shape `FULLRESYNC <id> <offset>` — exactly three space-separated
/// fields, the first literally `FULLRESYNC`, the last a decimal offset the
/// machine can hold. The id between the spaces may be empty.
pub open spec fn spec_fullresync(t: Seq<char>) -> Option<(Seq<char>, int)> {
    let bytes = chars_to_bytes(t);
    if !is_ascii_chars(t) {
        None
    } else {
        match find_byte(bytes, 0, 32) {
            Option::None => None,
            Option::Some(i) => {
                if bytes.subrange(0, i) != chars_to_bytes("FULLRESYNC"@) {
                    None
                } else {
                    match find_byte(bytes, i + 1, 32) {
                        Option::None => None,
                        Option::Some(j) => {
                            if find_byte(bytes, j + 1, 32) is Some {
                                None
                            } else {
                                match spec_parse_len(bytes.subrange(j + 1, bytes.len() as int)) {
                                    Option::Some(v) => if v <= usize::MAX {
                                        Some((t.subrange(i + 1, j), v))
                                    } else {
                                        None
                                    },
                                    Option::None => None,
                                }
                            }
                        },
                    }
                }
            },
        }
    }
}

/// One transition of the handshake: what the machine does with `reply` in
/// `stage`, given the port it will announce. `None` is a fatal abort; a
/// step answers the next request to send, or nothing when the exchange is
/// complete, and the final step carries the identity the slave adopts.
pub open spec fn spec_handshake_step(
    stage: HandshakeStage,
    port: u16,
    reply: ValueModel,
) -> Option<(HandshakeStage, Option<ValueModel>, Option<(Seq<char>, int)>)> {
    match stage {
        HandshakeStage::AwaitPong => {
            if reply == ValueModel::SimpleString("PONG"@) {
                Some((HandshakeStage::AwaitPortAck, Some(port_request_model(port)), None))
            } else {
                None
            }
        },
        HandshakeStage::AwaitPortAck => {
            if reply == ValueModel::SimpleString("OK"@) {
                Some((HandshakeStage::AwaitCapaAck, Some(capa_request_model()), None))
            } else {
                None
            }
        },
        HandshakeStage::AwaitCapaAck => {
            if reply == ValueModel::SimpleString("OK"@) {
                Some((HandshakeStage::AwaitFullresync, Some(psync_request_model()), None))
            } else {
                None
            }
        },
        HandshakeStage::AwaitFullresync => {
            match reply {
                ValueModel::SimpleString(t) => match spec_fullresync(t) {
                    Option::Some((id, off)) => Some((HandshakeStage::Done, None, Some((id, off)))),
                    Option::None => None,
                },
                _ => None,
            }
        },
        HandshakeStage::Done => None,
    }
}

/// The handshake succeeds against a compliant master: replies of `PONG`,
/// `OK`, `OK`, and `FULLRESYNC <id> 0` drive the machine through its four
/// stages in order — each step emitting exactly the next request — and the
/// exchange ends with the master's id, whatever it is, and offset zero
/// adopted. The id may be any ASCII text without spaces.
pub proof fn lemma_handshake_success(port: u16, id: Seq<char>)
    requires
        is_ascii_chars(id),
        forall|i: int| 0 <= i < id.len() ==> #[trigger] id[i] != ' ',
    ensures
        spec_handshake_step(HandshakeStage::AwaitPong, port, ValueModel::SimpleString("PONG"@))
            == Some(
            (HandshakeStage::AwaitPortAck, Some(port_request_model(port)), None::<(Seq<char>, int)>),
        ),
        spec_handshake_step(HandshakeStage::AwaitPortAck, port, ValueModel::SimpleString("OK"@))
            == Some(
            (HandshakeStage::AwaitCapaAck, Some(capa_request_model()), None::<(Seq<char>, int)>),
        ),
        spec_handshake_step(HandshakeStage::AwaitCapaAck, port, ValueModel::SimpleString("OK"@))
            == Some(
            (HandshakeStage::AwaitFullresync, Some(psync_request_model()), None::<(
                Seq<char>,
                int,
            )>),
        ),
        spec_handshake_step(
            HandshakeStage::AwaitFullresync,
            port,
            ValueModel::SimpleString("FULLRESYNC "@ + id + " 0"@),
        ) == Some((HandshakeStage::Done, None::<ValueModel>, Some((id, 0int)))),
{
    reveal_strlit("PONG");
    reveal_strlit("OK");
    reveal_strlit("FULLRESYNC ");
    reveal_strlit("FULLRESYNC");
    reveal_strlit(" 0");
    let t = "FULLRESYNC "@ + id + " 0"@;
    let bytes = chars_to_bytes(t);
    assert(is_ascii_chars(t)) by {
        assert forall|k: int| 0 <= k < t.len() implies '\0' <= #[trigger] t[k] <= '\u{7f}' by {
            if k < 11 {
                assert(t[k] == "FULLRESYNC "@[k]);
            } else if k < 11 + id.len() {
                assert(t[k] == id[k - 11]);
            } else {
                assert(t[k] == " 0"@[k - 11 - id.len()]);
            }
        }
    }
    let i = 10int;
    assert(bytes[i] == 32);
    assert(forall|j: int| 0 <= j < i ==> #[trigger] bytes[j] != 32);
    lemma_find_byte_at(bytes, 0, 32, i);
    assert(bytes.subrange(0, i) =~= chars_to_bytes("FULLRESYNC"@));
    let j = 11 + id.len() as int;
    assert(t[j] == ' ');
    assert(bytes[j] == 32);
    assert forall|k: int| 11 <= k < j implies #[trigger] bytes[k] != 32 by {
        assert(t[k] == id[k - 11]);
    }
    lemma_find_byte_at(bytes, i + 1, 32, j);
    assert forall|k: int| j + 1 <= k < bytes.len() implies #[trigger] bytes[k] != 32 by {
        assert(t[k] == '0');
    }
    lemma_find_byte_none(bytes, j + 1, 32);
    let off = bytes.subrange(j + 1, bytes.len() as int);
    assert(off =~= seq![48u8]);
    assert(crate::resp::model::dec_value(off) == 0) by {
        assert(off.drop_last() =~= Seq::<u8>::empty());
        assert(crate::resp::model::dec_value(Seq::<u8>::empty()) == 0);
    }
    assert(spec_parse_len(off) == Some(0int));
    assert(t.subrange(i + 1, j) =~= id);
}

/// Any substituted reply aborts the handshake before the next request is
/// sent: a step whose reply is not the one it expects transitions nowhere.
pub proof fn lemma_handshake_abort(stage: HandshakeStage, port: u16, reply: ValueModel)
    requires
        stage is AwaitPong ==> reply != ValueModel::SimpleString("PONG"@),
        stage is AwaitPortAck ==> reply != ValueModel::SimpleString("OK"@),
        stage is AwaitCapaAck ==> reply != ValueModel::SimpleString("OK"@),
        stage is AwaitFullresync ==> match reply {
            ValueModel::SimpleString(t) => spec_fullresync(t) is None,
            _ => true,
        },
    ensures
        spec_handshake_step(stage, port, reply) is None,
{
}

/// Every request of the exchange is a well-formed value: arrays of bulk
/// strings carry any bytes.
pub proof fn lemma_request_models_wf(port: u16)
    ensures
        wf_model(ping_request_model()),
        wf_model(port_request_model(port)),
        wf_model(capa_request_model()),
        wf_model(psync_request_model()),
{
    assert forall|i: int|
        0 <= i < ping_request_model()->Array_0.len() implies wf_model(
        #[trigger] ping_request_model()->Array_0[i],
    ) by {
        assert(ping_request_model()->Array_0[i] is BulkString);
    }
    assert forall|i: int|
        0 <= i < port_request_model(port)->Array_0.len() implies wf_model(
        #[trigger] port_request_model(port)->Array_0[i],
    ) by {
        assert(port_request_model(port)->Array_0[i] is BulkString);
    }
    assert forall|i: int|
        0 <= i < capa_request_model()->Array_0.len() implies wf_model(
        #[trigger] capa_request_model()->Array_0[i],
    ) by {
        assert(capa_request_model()->Array_0[i] is BulkString);
    }
    assert forall|i: int|
        0 <= i < psync_request_model()->Array_0.len() implies wf_model(
        #[trigger] psync_request_model()->Array_0[i],
    ) by {
        assert(psync_request_model()->Array_0[i] is BulkString);
    }
}

/// The exchange a slave runs against its master, one reply at a time.
pub struct Handshake {
    pub stage: HandshakeStage,
    pub own_port: u16,
    pub master_replid: Option<String>,
    pub master_repl_offset: Option<usize>,
}

impl Handshake {
    /// Starts the exchange: the machine waits for `PONG` and the caller
    /// sends the returned `PING` request.
    pub fn new(own_port: u16) -> (r: (Handshake, RespValues))
        ensures
            r.0.stage == HandshakeStage::AwaitPong,
            r.0.own_port == own_port,
            r.0.master_replid is None,
            r.0.master_repl_offset is None,
            value_model(r.1) == ping_request_model(),
            wf_model(value_model(r.1)),
    {
        proof {
            reveal_strlit("ping");
            lemma_request_models_wf(own_port);
        }
        let h = Handshake {
            stage: HandshakeStage::AwaitPong,
            own_port,
            master_replid: None,
            master_repl_offset: None,
        };
        let mut elems: Vec<RespValues> = Vec::new();
        elems.push(bulk_of("ping"));
        proof {
            lemma_seq_models(elems@);
            assert(seq_models(elems@) =~= seq![ValueModel::BulkString(chars_to_bytes("ping"@))]);
        }
        (h, RespValues::Array(RespArray::from_raw(elems)))
    }

    /// Whether the exchange has completed and holds the adopted identity.
    pub fn finished(&self) -> (r: bool)
        ensures
            r == (self.stage == HandshakeStage::Done && self.master_replid is Some
                && self.master_repl_offset is Some),
    {
        matches!(self.stage, HandshakeStage::Done) && self.master_replid.is_some()
            && self.master_repl_offset.is_some()
    }

    /// Feeds the master's reply to the machine: answers the next request
    /// to send, nothing when the exchange just completed, or the fatal
    /// error, leaving the machine unmoved so the caller sees where it died.
    pub fn step(&mut self, reply: &RespValues) -> (r: Result<Option<RespValues>, HandshakeError>)
        ensures
            match spec_handshake_step(old(self).stage, old(self).own_port, value_model(*reply)) {
                Some((ns, req, done)) => {
                    &&& final (self).stage == ns
                    &&& final (self).own_port == old(self).own_port
                    &&& match (req, r) {
                        (Some(rm), Result::Ok(Some(rv))) => value_model(rv) == rm && wf_model(rm),
                        (None, Result::Ok(o)) => o is None,
                        _ => false,
                    }
                    &&& match done {
                        Some((id, off)) => (final (self).master_replid matches Some(s) && s@ == id)
                            && (final (self).master_repl_offset matches Some(o) && o == off),
                        None => final (self).master_replid == old(self).master_replid && final (
                        self).master_repl_offset == old(self).master_repl_offset,
                    }
                },
                None => r is Err && *final (self) == *old(self),
            },
    {
        proof {
            lemma_request_models_wf(self.own_port);
            reveal_strlit("PONG");
            reveal_strlit("OK");
            reveal_strlit("REPLCONF");
            reveal_strlit("listening-port");
            reveal_strlit("capa");
            reveal_strlit("psync2");
            reveal_strlit("PSYNC");
            reveal_strlit("?");
            reveal_strlit("-1");
        }
        match self.stage {
            HandshakeStage::AwaitPong => {
                if reply_is(reply, "PONG") {
                    self.stage = HandshakeStage::AwaitPortAck;
                    let mut elems: Vec<RespValues> = Vec::new();
                    elems.push(bulk_of("REPLCONF"));
                    elems.push(bulk_of("listening-port"));
                    let mut digits: Vec<u8> = Vec::new();
                    push_decimal(self.own_port as usize, &mut digits);
                    elems.push(RespValues::BulkString(RespBulkString::from_raw(digits)));
                    proof {
                        lemma_seq_models(elems@);
                        assert(seq_models(elems@) =~= port_request_model(
                            old(self).own_port,
                        )->Array_0);
                    }
                    Ok(Some(RespValues::Array(RespArray::from_raw(elems))))
                } else {
                    Err(HandshakeError::UnexpectedReply)
                }
            },
            HandshakeStage::AwaitPortAck => {
                if reply_is(reply, "OK") {
                    self.stage = HandshakeStage::AwaitCapaAck;
                    let mut elems: Vec<RespValues> = Vec::new();
                    elems.push(bulk_of("REPLCONF"));
                    elems.push(bulk_of("capa"));
                    elems.push(bulk_of("psync2"));
                    proof {
                        lemma_seq_models(elems@);
                        assert(seq_models(elems@) =~= capa_request_model()->Array_0);
                    }
                    Ok(Some(RespValues::Array(RespArray::from_raw(elems))))
                } else {
                    Err(HandshakeError::UnexpectedReply)
                }
            },
            HandshakeStage::AwaitCapaAck => {
                if reply_is(reply, "OK") {
                    self.stage = HandshakeStage::AwaitFullresync;
                    let mut elems: Vec<RespValues> = Vec::new();
                    elems.push(bulk_of("PSYNC"));
                    elems.push(bulk_of("?"));
                    elems.push(bulk_of("-1"));
                    proof {
                        lemma_seq_models(elems@);
                        assert(seq_models(elems@) =~= psync_request_model()->Array_0);
                    }
                    Ok(Some(RespValues::Array(RespArray::from_raw(elems))))
                } else {
                    Err(HandshakeError::UnexpectedReply)
                }
            },
            HandshakeStage::AwaitFullresync => {
                match reply {
                    RespValues::SimpleString(line) => {
                        match parse_fullresync(&line.value) {
                            Some((id, off)) => {
                                self.stage = HandshakeStage::Done;
                                self.master_replid = Some(id);
                                self.master_repl_offset = Some(off);
                                Ok(None)
                            },
                            None => Err(HandshakeError::UnrecognizedResponse),
                        }
                    },
                    _ => Err(HandshakeError::UnexpectedReply),
                }
            },
            HandshakeStage::Done => Err(HandshakeError::UnexpectedReply),
        }
    }

    /// Completes the bootstrap: the slave adopts the master's replication
    /// id and offset wholesale; every other field stays.
    pub fn complete(&self, info: &mut ReplicationInfo)
        requires
            self.stage == HandshakeStage::Done,
            self.master_replid is Some,
            self.master_repl_offset is Some,
        ensures
            final (info).master_replid@ == self.master_replid->0@,
            final (info).master_repl_offset == self.master_repl_offset->0,
            final (info).role == old(info).role,
            final (info).master_host == old(info).master_host,
            final (info).master_port == old(info).master_port,
            final (info).second_repl_offset == old(info).second_repl_offset,
            final (info).repl_backlog_active == old(info).repl_backlog_active,
            final (info).repl_backlog_size == old(info).repl_backlog_size,
            final (info).repl_backlog_first_byte_offset == old(info).repl_backlog_first_byte_offset,
            final (info).repl_backlog_histlen == old(info).repl_backlog_histlen,
    {
        match &self.master_replid {
            Some(id) => {
                info.master_replid = id.clone();
            },
            None => {},
        }
        match self.master_repl_offset {
            Some(off) => {
                info.master_repl_offset = off;
            },
            None => {},
        }
    }
}

/// A bulk string holding the ASCII text `s`.
fn bulk_of(s: &str) -> (r: RespValues)
    requires
        s.is_ascii(),
    ensures
        value_model(r) == ValueModel::BulkString(chars_to_bytes(s@)),
{
    proof {
        vstd::string::is_ascii_spec_bytes(s);
    }
    let mut bytes: Vec<u8> = Vec::new();
    crate::resp::push_bytes(&mut bytes, s.as_bytes());
    proof {
        assert(bytes@ =~= chars_to_bytes(s@));
    }
    RespValues::BulkString(RespBulkString::from_raw(bytes))
}

/// Whether `reply` is the simple string carrying exactly the text `s`.
fn reply_is(reply: &RespValues, s: &str) -> (r: bool)
    requires
        s.is_ascii(),
    ensures
        r == (value_model(*reply) == ValueModel::SimpleString(s@)),
{
    match reply {
        RespValues::SimpleString(t) => {
            let other = String::from_str(s);
            t.value.eq(&other)
        },
        _ => false,
    }
}

/// Reads a full-resync status line: the id and offset it announces, read
/// exactly as [`spec_fullresync`] states them.
fn parse_fullresync(line: &String) -> (r: Option<(String, usize)>)
    ensures
        match r {
            Some((id, off)) => spec_fullresync(line@) == Some((id@, off as int)),
            None => spec_fullresync(line@) is None,
        },
{
    proof {
        reveal_strlit("FULLRESYNC");
    }
    if !line.is_ascii() {
        return None;
    }
    let text = line.as_str();
    proof {
        vstd::string::is_ascii_spec_bytes(text);
        assert(text.spec_bytes() =~= chars_to_bytes(line@));
    }
    let b = text.as_bytes();
    let n = b.len();
    let i = match find_byte_exec(b, 0, 32) {
        Some(i) => i,
        None => {
            return None;
        },
    };
    if !name_is(vstd::slice::slice_subrange(b, 0, i), "FULLRESYNC") {
        return None;
    }
    let j = match find_byte_exec(b, i + 1, 32) {
        Some(j) => j,
        None => {
            return None;
        },
    };
    if find_byte_exec(b, j + 1, 32).is_some() {
        return None;
    }
    match parse_decimal(b, j + 1, n, usize::MAX as u64) {
        Some(v) => {
            let id = ascii_bytes_to_string(vstd::slice::slice_subrange(b, i + 1, j));
            proof {
                assert(id@ =~= line@.subrange(i + 1, j as int));
            }
            Some((id, v as usize))
        },
        None => None,
    }
}

} // verus!
