//! An in-memory key-value server core speaking a RESP-style wire protocol:
//! a binary-safe codec, a command engine over a store with expiry, and the
//! master/slave replication bootstrap, all with verified contracts.

use vstd::prelude::*;

pub mod commands;
pub mod handshake;
pub mod replication;
pub mod resp;
pub mod store;
pub mod util;

use crate::commands::CommandError;
use crate::commands::Commands;
use crate::commands::dispatch_post;
use crate::replication::PendingSlave;
use crate::replication::ReplicationConfiguration;
use crate::replication::ReplicationInfo;
use crate::resp::FormatError;
use crate::resp::RespObject;
use crate::resp::RespValues;
use crate::resp::decode_value;
use crate::resp::model::decode_model;
use crate::resp::model::encode_model;
use crate::resp::model::no_crlf_chars;
use crate::resp::value_model;
use crate::store::Store;
use crate::util::ascii_no_crlf;
use vstd::string::StringExecFnsIsAscii;
use vstd::utf8::is_ascii_chars;

verus! {

/// The two bytes that terminate every protocol line: `\r\n`.
pub open spec fn crlf() -> Seq<u8> {
    seq![13u8, 10u8]
}

/// Executable counterpart of [`crlf`]: pushes `\r\n` onto `out`.
pub fn push_crlf(out: &mut Vec<u8>)
    ensures
        final(out)@ == old(out)@ + crlf(),
{
    out.push(13u8);
    out.push(10u8);
    assert(out@ =~= old(out)@ + crlf());
}

/// The process-wide state every connection shares: the store, the
/// replication identity, and the registry of attached slaves. The source
/// held these in unguarded globals; here one value owns them and the
/// caller serializes access.
pub struct ServerState {
    pub store: Store,
    pub replication: ReplicationInfo,
    pub config: ReplicationConfiguration,
}

impl ServerState {
    /// The store's keys are distinct and the replication id is ASCII text
    /// a protocol status line can carry.
    pub open spec fn wf(self) -> bool {
        &&& self.store.wf()
        &&& is_ascii_chars(self.replication.master_replid@)
        &&& no_crlf_chars(self.replication.master_replid@)
    }

    /// Builds the process state around a replication identity, with an
    /// empty store and registry; refuses an identity whose id a protocol
    /// status line could not carry.
    pub fn new(replication: ReplicationInfo) -> (r: Option<ServerState>)
        ensures
            match r {
                Some(s) => s.wf() && s.store.data@.len() == 0 && s.config.slaves@.len() == 0
                    && s.replication == replication,
                None => !(is_ascii_chars(replication.master_replid@) && no_crlf_chars(
                    replication.master_replid@,
                )),
            },
    {
        if !replication.master_replid.is_ascii() {
            return None;
        }
        if !ascii_no_crlf(replication.master_replid.as_str()) {
            return None;
        }
        Some(
            ServerState {
                store: Store::init(),
                replication,
                config: ReplicationConfiguration::new(),
            },
        )
    }
}

/// What ends a request: its bytes never decoded, decoded short of the full
/// input, or decoded into a command that refused it.
#[derive(Clone, Copy, PartialEq, Eq, Structural, Debug)]
pub enum ServerError {
    /// The bytes are not one complete value.
    Format(FormatError),
    /// A value decoded but bytes trailed it: a request must be exactly one
    /// value.
    TrailingBytes,
    /// The decoded value does not fit any command.
    Command(CommandError),
}

/// Serves one request: decodes exactly one value from the whole input,
/// dispatches it, and encodes the reply, if the command sends one.
pub fn handle_request(
    input: &[u8],
    state: &mut ServerState,
    pending: &mut PendingSlave,
    now: u64,
) -> (r: Result<Option<Vec<u8>>, ServerError>)
    requires
        old(state).wf(),
    ensures
        final (state).wf(),
        ({
            let d = decode_model(input@);
            match r {
                Err(ServerError::Format(_)) => d is None && *final (state) == *old(state)
                    && *final (pending) == *old(pending),
                Err(ServerError::TrailingBytes) => d matches Some((n, m)) && n < input@.len()
                    && *final (state) == *old(state) && *final (pending) == *old(pending),
                Err(ServerError::Command(ce)) => d matches Some((n, m)) && n == input@.len()
                    && dispatch_post(
                    m,
                    *old(state),
                    *final (state),
                    *old(pending),
                    *final (pending),
                    now,
                    Err(ce),
                ),
                Ok(out) => d matches Some((n, m)) && n == input@.len() && (exists|
                    rv: Option<RespValues>,
                |
                    {
                        &&& #[trigger] dispatch_post(
                            m,
                            *old(state),
                            *final (state),
                            *old(pending),
                            *final (pending),
                            now,
                            Ok(rv),
                        )
                        &&& match (rv, out) {
                            (Some(v), Some(bytes)) => bytes@ == encode_model(value_model(v)),
                            (None, None) => true,
                            _ => false,
                        }
                    }),
            }
        }),
{
    match decode_value(input) {
        Err(e) => Err(ServerError::Format(e)),
        Ok((n, v)) => {
            if n < input.len() {
                return Err(ServerError::TrailingBytes);
            }
            match Commands::invoke(v, state, pending, now) {
                Err(ce) => Err(ServerError::Command(ce)),
                Ok(None) => {
                    proof {
                        assert(dispatch_post(
                            decode_model(input@)->Some_0.1,
                            *old(state),
                            *state,
                            *old(pending),
                            *pending,
                            now,
                            Ok(Option::<RespValues>::None),
                        ));
                    }
                    Ok(None)
                },
                Ok(Some(rv)) => {
                    let bytes = rv.serialize();
                    proof {
                        assert(dispatch_post(
                            decode_model(input@)->Some_0.1,
                            *old(state),
                            *state,
                            *old(pending),
                            *pending,
                            now,
                            Ok(Some(rv)),
                        ));
                    }
                    Ok(Some(bytes))
                },
            }
        },
    }
}

} // verus!
