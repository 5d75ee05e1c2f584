//! Command dispatch: a decoded request is an array whose first element
//! names the command; each command has its own module and an exact
//! contract over the store and replication state it touches.

use vstd::prelude::*;

pub mod echo;
pub mod get;
pub mod info;
pub mod ping;
pub mod psync;
pub mod replconf;
pub mod set;

use crate::ServerState;
use crate::commands::echo::CommandEcho;
use crate::commands::echo::echo_post;
use crate::commands::get::CommandGet;
use crate::commands::get::get_post;
use crate::commands::info::CommandInfo;
use crate::commands::ping::CommandPing;
use crate::commands::psync::CommandPsync;
use crate::commands::psync::psync_post;
use crate::commands::replconf::CommandReplconf;
use crate::commands::replconf::replconf_post;
use crate::commands::set::CommandSet;
use crate::commands::set::set_post;
use crate::replication::PendingSlave;
use crate::replication::spec_render_info;
use crate::resp::RespValues;
use crate::resp::lemma_seq_models;
use crate::resp::seq_models;
use crate::resp::model::ValueModel;
use crate::resp::model::chars_to_bytes;
use crate::resp::model::wf_model;
use crate::resp::value_model;
use crate::util::name_is;

verus! {

/// A structurally valid value that does not fit the command it names, or
/// names no command at all. The source treated these as fatal; here each
/// case is a typed error and the connection driver chooses its fate.
#[derive(Clone, Copy, PartialEq, Eq, Structural, Debug)]
pub enum CommandError {
    /// The request is not an array with a bulk-string command name first.
    MalformedRequest,
    /// The command name is none this server knows.
    UnknownCommand,
    /// The command came with the wrong number of arguments.
    WrongArity,
    /// An argument that must be a bulk string is some other value.
    ExpectedBulkString,
    /// A text argument whose bytes are not valid UTF-8.
    NonUtf8Argument,
    /// A numeric argument that is not a decimal number in range.
    BadInteger,
    /// A `REPLCONF` stage this server does not know.
    UnknownReplconfStage,
    /// `capa` before a listening port, or a listening port given twice.
    ReplconfOutOfOrder,
    /// A slave tried to register against a process that is not a master.
    NotMaster,
}

/// The commands this server answers. Names are matched without regard to
/// ASCII case, so `SET` and `set` select the same command; the replication
/// commands are conventionally sent in upper case.
pub enum Commands {
    Ping(CommandPing),
    Echo(CommandEcho),
    SetCmd(CommandSet),
    Get(CommandGet),
    Info(CommandInfo),
    Replconf(CommandReplconf),
    Psync(CommandPsync),
}

/// The ASCII-lowercase fold of one byte.
pub open spec fn lower_byte(b: u8) -> u8 {
    if 65 <= b && b <= 90 {
        (b + 32) as u8
    } else {
        b
    }
}

/// The ASCII-lowercase fold of a byte string: how command names compare.
pub open spec fn lower_bytes(s: Seq<u8>) -> Seq<u8> {
    s.map_values(|b: u8| lower_byte(b))
}

/// Executable counterpart of [`lower_bytes`].
pub fn lower_bytes_exec(b: &[u8]) -> (r: Vec<u8>)
    ensures
        r@ == lower_bytes(b@),
{
    let mut out: Vec<u8> = Vec::new();
    let mut i: usize = 0;
    while i < b.len()
        invariant
            i <= b@.len(),
            out@.len() == i,
            forall|j: int| 0 <= j < i ==> #[trigger] out@[j] == lower_byte(b@[j]),
        decreases b@.len() - i,
    {
        let x = b[i];
        if 65 <= x && x <= 90 {
            out.push(x + 32);
        } else {
            out.push(x);
        }
        i = i + 1;
    }
    proof {
        assert(out@ =~= lower_bytes(b@));
    }
    out
}

/// Nothing moved: the state and the pending record are as they were.
pub open spec fn untouched(
    old_state: ServerState,
    new_state: ServerState,
    old_pending: PendingSlave,
    new_pending: PendingSlave,
) -> bool {
    new_state == old_state && new_pending == old_pending
}

/// What dispatch does for every request: route by the bulk-string command
/// name in element zero to that command's own contract, leave everything a
/// command does not touch unchanged, and answer a typed error for a
/// request that names no command or has no name at all.
pub open spec fn dispatch_post(
    m: ValueModel,
    old_state: ServerState,
    new_state: ServerState,
    old_pending: PendingSlave,
    new_pending: PendingSlave,
    now: u64,
    r: Result<Option<RespValues>, CommandError>,
) -> bool {
    match m {
        ValueModel::Array(elems) => if elems.len() == 0 {
            r matches Err(e) && e == CommandError::MalformedRequest && untouched(
                old_state,
                new_state,
                old_pending,
                new_pending,
            )
        } else {
            match elems[0] {
                ValueModel::BulkString(name) => {
                    if lower_bytes(name) == chars_to_bytes("ping"@) {
                        (r matches Ok(Some(rv)) && value_model(rv) == ValueModel::SimpleString(
                            "PONG"@,
                        )) && untouched(old_state, new_state, old_pending, new_pending)
                    } else if lower_bytes(name) == chars_to_bytes("echo"@) {
                        echo_post(m, r) && untouched(old_state, new_state, old_pending, new_pending)
                    } else if lower_bytes(name) == chars_to_bytes("set"@) {
                        set_post(m, old_state.store, new_state.store, now, r)
                            && new_state.replication == old_state.replication && new_state.config
                            == old_state.config && new_pending == old_pending
                    } else if lower_bytes(name) == chars_to_bytes("get"@) {
                        get_post(m, old_state.store, now, r) && untouched(
                            old_state,
                            new_state,
                            old_pending,
                            new_pending,
                        )
                    } else if lower_bytes(name) == chars_to_bytes("info"@) {
                        (r matches Ok(Some(rv)) && value_model(rv) == ValueModel::BulkString(
                            spec_render_info(old_state.replication, old_state.config.slaves@.len()),
                        )) && untouched(old_state, new_state, old_pending, new_pending)
                    } else if lower_bytes(name) == chars_to_bytes("replconf"@) {
                        replconf_post(
                            m,
                            old_pending,
                            new_pending,
                            old_state.config,
                            new_state.config,
                            old_state.replication.role,
                            r,
                        ) && new_state.store == old_state.store && new_state.replication
                            == old_state.replication
                    } else if lower_bytes(name) == chars_to_bytes("psync"@) {
                        psync_post(m, old_state.replication, r) && untouched(
                            old_state,
                            new_state,
                            old_pending,
                            new_pending,
                        )
                    } else {
                        r matches Err(e) && e == CommandError::UnknownCommand && untouched(
                            old_state,
                            new_state,
                            old_pending,
                            new_pending,
                        )
                    }
                },
                _ => r matches Err(e) && e == CommandError::MalformedRequest && untouched(
                    old_state,
                    new_state,
                    old_pending,
                    new_pending,
                ),
            }
        },
        _ => r matches Err(e) && e == CommandError::MalformedRequest && untouched(
            old_state,
            new_state,
            old_pending,
            new_pending,
        ),
    }
}

/// The seven command names denote pairwise different byte strings.
proof fn lemma_command_names_distinct()
    ensures
        chars_to_bytes("ping"@) != chars_to_bytes("echo"@),
        chars_to_bytes("ping"@) != chars_to_bytes("set"@),
        chars_to_bytes("ping"@) != chars_to_bytes("get"@),
        chars_to_bytes("ping"@) != chars_to_bytes("info"@),
        chars_to_bytes("ping"@) != chars_to_bytes("replconf"@),
        chars_to_bytes("ping"@) != chars_to_bytes("psync"@),
        chars_to_bytes("echo"@) != chars_to_bytes("set"@),
        chars_to_bytes("echo"@) != chars_to_bytes("get"@),
        chars_to_bytes("echo"@) != chars_to_bytes("info"@),
        chars_to_bytes("echo"@) != chars_to_bytes("replconf"@),
        chars_to_bytes("echo"@) != chars_to_bytes("psync"@),
        chars_to_bytes("set"@) != chars_to_bytes("get"@),
        chars_to_bytes("set"@) != chars_to_bytes("info"@),
        chars_to_bytes("set"@) != chars_to_bytes("replconf"@),
        chars_to_bytes("set"@) != chars_to_bytes("psync"@),
        chars_to_bytes("get"@) != chars_to_bytes("info"@),
        chars_to_bytes("get"@) != chars_to_bytes("replconf"@),
        chars_to_bytes("get"@) != chars_to_bytes("psync"@),
        chars_to_bytes("info"@) != chars_to_bytes("replconf"@),
        chars_to_bytes("info"@) != chars_to_bytes("psync"@),
        chars_to_bytes("replconf"@) != chars_to_bytes("psync"@),
{
    reveal_strlit("ping");
    reveal_strlit("echo");
    reveal_strlit("set");
    reveal_strlit("get");
    reveal_strlit("info");
    reveal_strlit("replconf");
    reveal_strlit("psync");
    assert(chars_to_bytes("ping"@)[0] == 112);
    assert(chars_to_bytes("echo"@)[0] == 101);
    assert(chars_to_bytes("info"@)[0] == 105);
    assert(chars_to_bytes("set"@)[0] == 115);
    assert(chars_to_bytes("get"@)[0] == 103);
    assert(chars_to_bytes("ping"@).len() == 4);
    assert(chars_to_bytes("echo"@).len() == 4);
    assert(chars_to_bytes("info"@).len() == 4);
    assert(chars_to_bytes("set"@).len() == 3);
    assert(chars_to_bytes("get"@).len() == 3);
    assert(chars_to_bytes("replconf"@).len() == 8);
    assert(chars_to_bytes("psync"@).len() == 5);
}

/// The command a request selects: the bulk-string name in element zero,
/// matched exactly; a typed error where the request has no such name.
fn route(data: &RespValues) -> (r: Result<Commands, CommandError>)
    ensures
        match value_model(*data) {
            ValueModel::Array(elems) => if elems.len() == 0 {
                r matches Err(e) && e == CommandError::MalformedRequest
            } else {
                match elems[0] {
                    ValueModel::BulkString(name) => {
                        if lower_bytes(name) == chars_to_bytes("ping"@) {
                            r matches Ok(c) && c is Ping
                        } else if lower_bytes(name) == chars_to_bytes("echo"@) {
                            r matches Ok(c) && c is Echo
                        } else if lower_bytes(name) == chars_to_bytes("set"@) {
                            r matches Ok(c) && c is SetCmd
                        } else if lower_bytes(name) == chars_to_bytes("get"@) {
                            r matches Ok(c) && c is Get
                        } else if lower_bytes(name) == chars_to_bytes("info"@) {
                            r matches Ok(c) && c is Info
                        } else if lower_bytes(name) == chars_to_bytes("replconf"@) {
                            r matches Ok(c) && c is Replconf
                        } else if lower_bytes(name) == chars_to_bytes("psync"@) {
                            r matches Ok(c) && c is Psync
                        } else {
                            r matches Err(e) && e == CommandError::UnknownCommand
                        }
                    },
                    _ => r matches Err(e) && e == CommandError::MalformedRequest,
                }
            },
            _ => r matches Err(e) && e == CommandError::MalformedRequest,
        },
{
    proof {
        lemma_command_names_distinct();
    }
    match data {
        RespValues::Array(a) => {
            proof {
                lemma_seq_models(a.values@);
            }
            if a.values.len() == 0 {
                return Err(CommandError::MalformedRequest);
            }
            match &a.values[0] {
                RespValues::BulkString(b) => {
                    proof {
                        assert(value_model(*data) == ValueModel::Array(seq_models(a.values@)));
                        assert(seq_models(a.values@)[0] == value_model(a.values@[0]));
                        assert(value_model(a.values@[0]) == ValueModel::BulkString(b.values@));
                    }
                    match Commands::recognize(b.values.as_slice()) {
                        Some(c) => Ok(c),
                        None => Err(CommandError::UnknownCommand),
                    }
                },
                _ => {
                    proof {
                        assert(seq_models(a.values@)[0] == value_model(a.values@[0]));
                    }
                    Err(CommandError::MalformedRequest)
                },
            }
        },
        _ => Err(CommandError::MalformedRequest),
    }
}

impl Commands {
    /// The command a name selects, matched exactly.
    pub fn recognize(name: &[u8]) -> (r: Option<Commands>)
        ensures
            match r {
                Some(c) => match c {
                    Commands::Ping(_) => lower_bytes(name@) == chars_to_bytes("ping"@),
                    Commands::Echo(_) => lower_bytes(name@) == chars_to_bytes("echo"@),
                    Commands::SetCmd(_) => lower_bytes(name@) == chars_to_bytes("set"@),
                    Commands::Get(_) => lower_bytes(name@) == chars_to_bytes("get"@),
                    Commands::Info(_) => lower_bytes(name@) == chars_to_bytes("info"@),
                    Commands::Replconf(_) => lower_bytes(name@) == chars_to_bytes("replconf"@),
                    Commands::Psync(_) => lower_bytes(name@) == chars_to_bytes("psync"@),
                },
                None => {
                    &&& lower_bytes(name@) != chars_to_bytes("ping"@)
                    &&& lower_bytes(name@) != chars_to_bytes("echo"@)
                    &&& lower_bytes(name@) != chars_to_bytes("set"@)
                    &&& lower_bytes(name@) != chars_to_bytes("get"@)
                    &&& lower_bytes(name@) != chars_to_bytes("info"@)
                    &&& lower_bytes(name@) != chars_to_bytes("replconf"@)
                    &&& lower_bytes(name@) != chars_to_bytes("psync"@)
                },
            },
    {
        proof {
            reveal_strlit("ping");
            reveal_strlit("echo");
            reveal_strlit("set");
            reveal_strlit("get");
            reveal_strlit("info");
            reveal_strlit("replconf");
            reveal_strlit("psync");
        }
        let lowered = lower_bytes_exec(name);
        if name_is(lowered.as_slice(), "ping") {
            Some(Commands::Ping(CommandPing {  }))
        } else if name_is(lowered.as_slice(), "echo") {
            Some(Commands::Echo(CommandEcho {  }))
        } else if name_is(lowered.as_slice(), "set") {
            Some(Commands::SetCmd(CommandSet {  }))
        } else if name_is(lowered.as_slice(), "get") {
            Some(Commands::Get(CommandGet {  }))
        } else if name_is(lowered.as_slice(), "info") {
            Some(Commands::Info(CommandInfo {  }))
        } else if name_is(lowered.as_slice(), "replconf") {
            Some(Commands::Replconf(CommandReplconf {  }))
        } else if name_is(lowered.as_slice(), "psync") {
            Some(Commands::Psync(CommandPsync {  }))
        } else {
            None
        }
    }

    /// Routes one decoded request to its command and answers its reply,
    /// `None` where the command sends nothing, or the command's error.
    pub fn invoke(
        data: RespValues,
        state: &mut ServerState,
        pending: &mut PendingSlave,
        now: u64,
    ) -> (r: Result<Option<RespValues>, CommandError>)
        requires
            old(state).wf(),
            wf_model(value_model(data)),
        ensures
            final (state).wf(),
            dispatch_post(
                value_model(data),
                *old(state),
                *final (state),
                *old(pending),
                *final (pending),
                now,
                r,
            ),
            r matches Ok(Some(rv)) ==> wf_model(value_model(rv)),
    {
        proof {
            lemma_command_names_distinct();
        }
        match route(&data) {
            Err(e) => Err(e),
            Ok(c) => match c {
                Commands::Ping(_) => Ok(Some(CommandPing::invoke())),
                Commands::Echo(_) => CommandEcho::invoke(data),
                Commands::SetCmd(_) => CommandSet::invoke(&data, &mut state.store, now),
                Commands::Get(_) => CommandGet::invoke(&data, &state.store, now),
                Commands::Info(_) => Ok(
                    Some(CommandInfo::invoke(&state.replication, &state.config)),
                ),
                Commands::Replconf(_) => {
                    let role = state.replication.role;
                    CommandReplconf::invoke(&data, pending, &mut state.config, role)
                },
                Commands::Psync(_) => CommandPsync::invoke(&data, &state.replication),
            },
        }
    }
}

} // verus!
