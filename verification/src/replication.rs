//! Replication state: the process role and identity, the registry of
//! attached slaves, and the per-connection record a slave builds while it
//! registers.

use vstd::prelude::*;
use vstd::utf8::encode_utf8;

use crate::crlf;
use crate::push_crlf;
use crate::resp::model::chars_to_bytes;
use crate::resp::model::dec_digits;
use crate::resp::model::spec_parse_len;
use crate::resp::push_decimal;
use crate::util::generate_master_replid;
use crate::util::push_ascii;
use crate::util::wf_replid;

verus! {

/// Which side of replication this process plays.
#[derive(Clone, Copy, PartialEq, Eq, Structural, Debug)]
pub enum ReplicationRole {
    Master,
    Slave,
}

/// The text a role shows in the replication section.
pub open spec fn role_text(role: ReplicationRole) -> Seq<char> {
    match role {
        ReplicationRole::Master => "master"@,
        ReplicationRole::Slave => "slave"@,
    }
}

impl ReplicationRole {
    /// The role's name as text.
    pub fn render(&self) -> (r: &'static str)
        ensures
            r@ == role_text(*self),
            r.is_ascii(),
    {
        match self {
            ReplicationRole::Master => {
                proof {
                    reveal_strlit("master");
                }
                "master"
            },
            ReplicationRole::Slave => {
                proof {
                    reveal_strlit("slave");
                }
                "slave"
            },
        }
    }
}

/// The process-wide replication identity: role, forty-character id, and
/// offsets, with the master's address when the role is slave.
pub struct ReplicationInfo {
    pub role: ReplicationRole,
    pub master_replid: String,
    pub master_repl_offset: usize,
    pub second_repl_offset: usize,
    pub repl_backlog_active: usize,
    pub repl_backlog_size: usize,
    pub repl_backlog_first_byte_offset: usize,
    pub repl_backlog_histlen: usize,
    pub master_host: String,
    pub master_port: u16,
}

/// One `label:value` line of the replication section, closed by the
/// protocol terminator.
pub open spec fn info_line(label: Seq<char>, value: Seq<u8>) -> Seq<u8> {
    chars_to_bytes(label) + value + crlf()
}

/// The bytes of the `# Replication` section: a heading and one line per
/// field, each closed by the protocol terminator; the master address lines
/// appear only for a slave.
pub open spec fn spec_render_info(info: ReplicationInfo, connected_slaves: nat) -> Seq<u8> {
    chars_to_bytes("# Replication"@) + crlf() + info_line("role:"@, chars_to_bytes(role_text(info.role)))
        + info_line("connected_slaves:"@, dec_digits(connected_slaves)) + info_line(
        "master_replid:"@,
        chars_to_bytes(info.master_replid@),
    ) + info_line("master_repl_offset:"@, dec_digits(info.master_repl_offset as nat)) + info_line(
        "second_repl_offset:"@,
        dec_digits(info.second_repl_offset as nat),
    ) + info_line("repl_backlog_active:"@, dec_digits(info.repl_backlog_active as nat)) + info_line(
        "repl_backlog_size:"@,
        dec_digits(info.repl_backlog_size as nat),
    ) + info_line(
        "repl_backlog_first_byte_offset:"@,
        dec_digits(info.repl_backlog_first_byte_offset as nat),
    ) + info_line("repl_backlog_histlen:"@, dec_digits(info.repl_backlog_histlen as nat)) + (
    if info.role is Slave {
        info_line("master_host:"@, encode_utf8(info.master_host@)) + info_line(
            "master_port:"@,
            dec_digits(info.master_port as nat),
        )
    } else {
        Seq::empty()
    })
}

impl ReplicationInfo {
    /// The fields a fresh instance shares whatever the role: offsets at
    /// zero and a well-formed id.
    pub open spec fn fresh(self) -> bool {
        wf_replid(self.master_replid@) && self.master_repl_offset == 0 && self.second_repl_offset
            == 0 && self.repl_backlog_active == 0 && self.repl_backlog_size == 0
            && self.repl_backlog_first_byte_offset == 0 && self.repl_backlog_histlen == 0
    }

    /// Renders the `# Replication` section as reply payload bytes.
    #[verifier::rlimit(100)]
    pub fn render(&self, connected_slaves: usize) -> (r: Vec<u8>)
        requires
            self.master_replid.is_ascii(),
        ensures
            r@ == spec_render_info(*self, connected_slaves as nat),
    {
        proof {
            reveal_strlit("# Replication");
            reveal_strlit("role:");
            reveal_strlit("connected_slaves:");
            reveal_strlit("master_replid:");
            reveal_strlit("master_repl_offset:");
            reveal_strlit("second_repl_offset:");
            reveal_strlit("repl_backlog_active:");
            reveal_strlit("repl_backlog_size:");
            reveal_strlit("repl_backlog_first_byte_offset:");
            reveal_strlit("repl_backlog_histlen:");
            reveal_strlit("master_host:");
            reveal_strlit("master_port:");
        }
        let mut out: Vec<u8> = Vec::new();
        push_ascii(&mut out, "# Replication");
        push_crlf(&mut out);
        push_ascii(&mut out, "role:");
        push_ascii(&mut out, self.role.render());
        push_crlf(&mut out);
        push_ascii(&mut out, "connected_slaves:");
        push_decimal(connected_slaves, &mut out);
        push_crlf(&mut out);
        push_ascii(&mut out, "master_replid:");
        push_ascii(&mut out, self.master_replid.as_str());
        push_crlf(&mut out);
        push_ascii(&mut out, "master_repl_offset:");
        push_decimal(self.master_repl_offset, &mut out);
        push_crlf(&mut out);
        push_ascii(&mut out, "second_repl_offset:");
        push_decimal(self.second_repl_offset, &mut out);
        push_crlf(&mut out);
        push_ascii(&mut out, "repl_backlog_active:");
        push_decimal(self.repl_backlog_active, &mut out);
        push_crlf(&mut out);
        push_ascii(&mut out, "repl_backlog_size:");
        push_decimal(self.repl_backlog_size, &mut out);
        push_crlf(&mut out);
        push_ascii(&mut out, "repl_backlog_first_byte_offset:");
        push_decimal(self.repl_backlog_first_byte_offset, &mut out);
        push_crlf(&mut out);
        push_ascii(&mut out, "repl_backlog_histlen:");
        push_decimal(self.repl_backlog_histlen, &mut out);
        push_crlf(&mut out);
        if matches!(self.role, ReplicationRole::Slave) {
            push_ascii(&mut out, "master_host:");
            crate::resp::push_bytes(&mut out, self.master_host.as_str().as_bytes());
            push_crlf(&mut out);
            push_ascii(&mut out, "master_port:");
            push_decimal(self.master_port as usize, &mut out);
            push_crlf(&mut out);
        }
        assert(out@ =~= spec_render_info(*self, connected_slaves as nat));
        out
    }
}

/// One attached slave: the port it listens on and the capability tokens it
/// announced.
pub struct ReplicationSlave {
    pub port: u16,
    pub capabilities: Vec<String>,
}

/// The process-wide registry of slaves that completed registration.
pub struct ReplicationConfiguration {
    pub slaves: Vec<ReplicationSlave>,
}

impl ReplicationConfiguration {
    /// An empty registry.
    pub fn new() -> (r: ReplicationConfiguration)
        ensures
            r.slaves@.len() == 0,
    {
        ReplicationConfiguration { slaves: Vec::new() }
    }

    /// Commits one fully populated record to the registry.
    pub fn add_replication_slave(&mut self, slave: ReplicationSlave)
        ensures
            final(self).slaves@ == old(self).slaves@.push(slave),
    {
        self.slaves.push(slave);
    }

    /// How many slaves have registered.
    pub fn len(&self) -> (r: usize)
        ensures
            r == self.slaves@.len(),
    {
        self.slaves.len()
    }
}

/// The record a registering slave builds across its two `REPLCONF`
/// messages, held per connection: the port arrives first, the capabilities
/// commit it.
pub struct PendingSlave {
    pub port: Option<u16>,
}

impl PendingSlave {
    /// A fresh connection has nothing registered yet.
    pub fn new() -> (r: PendingSlave)
        ensures
            r.port is None,
    {
        PendingSlave { port: None }
    }
}

/// Why initialization refused its configuration.
#[derive(Clone, Copy, PartialEq, Eq, Structural, Debug)]
pub enum ConfigError {
    /// The `replica_of` list does not hold exactly a host and a port.
    BadReplicaOf,
    /// The master port is not a decimal number a port can hold.
    BadMasterPort,
}

/// The startup configuration: the port to listen on, and the master to
/// follow — a host and a port, as the two pieces of text the command line
/// supplied — when this process is to run as a slave.
pub struct Args {
    pub port: Option<u16>,
    pub replica_of: Option<Vec<String>>,
}

impl Args {
    /// The port this process listens on: the configured one, or 6379.
    pub fn listening_port(&self) -> (r: u16)
        ensures
            r == match self.port {
                Some(p) => p,
                None => 6379u16,
            },
    {
        match self.port {
            Some(p) => p,
            None => 6379,
        }
    }
}

/// Builds the replication identity this process starts with: a master when
/// no `replica_of` address is given, a slave of that address otherwise.
/// The id is drawn fresh; every offset starts at zero.
pub fn initialize_replication(args: Args) -> (r: Result<ReplicationInfo, ConfigError>)
    ensures
        match args.replica_of {
            None => r matches Ok(info) && info.role == ReplicationRole::Master && info.fresh()
                && info.master_host@ == Seq::<char>::empty() && info.master_port == 0,
            Some(v) => if v@.len() != 2 {
                r matches Err(e) && e == ConfigError::BadReplicaOf
            } else {
                let parsed = spec_parse_len(encode_utf8(v@[1]@));
                match r {
                    Ok(info) => info.role == ReplicationRole::Slave && info.fresh()
                        && info.master_host@ == v@[0]@ && parsed == Some(info.master_port as int),
                    Err(ConfigError::BadMasterPort) => parsed is None || parsed->Some_0 > 65535,
                    Err(ConfigError::BadReplicaOf) => false,
                }
            },
        },
{
    let replid = generate_master_replid();
    proof {
        assert(replid.is_ascii()) by {
            assert forall|i: int| 0 <= i < replid@.len() implies '\0' <= #[trigger] replid@[i]
                <= '\u{7f}' by {
                assert(crate::util::is_replid_char(replid@[i]));
            }
        }
    }
    match args.replica_of {
        Some(v) => {
            if v.len() != 2 {
                return Err(ConfigError::BadReplicaOf);
            }
            let host = v[0].clone();
            let port_bytes = v[1].as_str().as_bytes();
            match crate::resp::parse_decimal(port_bytes, 0, port_bytes.len(), 65535) {
                Some(p) => {
                    proof {
                        assert(port_bytes@.subrange(0, port_bytes@.len() as int) =~= port_bytes@);
                    }
                    Ok(
                        ReplicationInfo {
                            role: ReplicationRole::Slave,
                            master_replid: replid,
                            master_repl_offset: 0,
                            second_repl_offset: 0,
                            repl_backlog_active: 0,
                            repl_backlog_size: 0,
                            repl_backlog_first_byte_offset: 0,
                            repl_backlog_histlen: 0,
                            master_host: host,
                            master_port: p as u16,
                        },
                    )
                },
                None => {
                    proof {
                        assert(port_bytes@.subrange(0, port_bytes@.len() as int) =~= port_bytes@);
                    }
                    Err(ConfigError::BadMasterPort)
                },
            }
        },
        None => Ok(
            ReplicationInfo {
                role: ReplicationRole::Master,
                master_replid: replid,
                master_repl_offset: 0,
                second_repl_offset: 0,
                repl_backlog_active: 0,
                repl_backlog_size: 0,
                repl_backlog_first_byte_offset: 0,
                repl_backlog_histlen: 0,
                master_host: String::new(),
                master_port: 0,
            },
        ),
    }
}

} // verus!
