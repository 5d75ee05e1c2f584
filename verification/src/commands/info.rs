//! `INFO` → a bulk string carrying the `# Replication` section.

use vstd::prelude::*;
use vstd::string::StringExecFnsIsAscii;

use crate::replication::ReplicationConfiguration;
use crate::replication::ReplicationInfo;
use crate::replication::spec_render_info;
use crate::resp::RespValues;
use crate::resp::bulk_string::RespBulkString;
use crate::resp::model::ValueModel;
use crate::resp::model::wf_model;
use crate::resp::value_model;

verus! {

/// The introspection command; it reads the replication state and registry
/// and mutates nothing.
pub struct CommandInfo {}

impl CommandInfo {
    /// Answers the replication section rendered from the current state,
    /// whatever the request carried beyond its name.
    pub fn invoke(info: &ReplicationInfo, config: &ReplicationConfiguration) -> (r: RespValues)
        requires
            info.master_replid.is_ascii(),
        ensures
            value_model(r) == ValueModel::BulkString(
                spec_render_info(*info, config.slaves@.len()),
            ),
            wf_model(value_model(r)),
    {
        RespValues::BulkString(RespBulkString::from_raw(info.render(config.len())))
    }
}

} // verus!
