//! The dsh Cordis ACP extension contract shared by the native client
//! surfaces: its protocol version, its method names, and whether an agent
//! speaks it.

use vstd::prelude::*;
use crate::json::{Json, as_u64, get, get_in, get_opt};

verus! {

/// The protocol version of the Cordis extension this client speaks.
pub const PROTOCOL: u64 = 0;

pub const THEME_UPDATE: &'static str = "_dsh/cordis/tui/theme/update";
pub const THEME_REMOVE: &'static str = "_dsh/cordis/tui/theme/remove";
pub const THEME_SELECTED: &'static str = "_dsh/cordis/tui/theme/selected";
pub const SLOTS_UPDATE: &'static str = "_dsh/cordis/tui/slots/update";
pub const COMMANDS_UPDATE: &'static str = "_dsh/cordis/tui/commands/update";
pub const COMMAND_INVOKE: &'static str = "_dsh/cordis/tui/commands/invoke";
pub const OVERLAY_UPDATE: &'static str = "_dsh/cordis/tui/overlay/update";
pub const OVERLAY_EVENT: &'static str = "_dsh/cordis/tui/overlay/event";
pub const QUEUE_UPDATE: &'static str = "_dsh/cordis/tui/queue/update";
pub const AGENTS_UPDATE: &'static str = "_dsh/cordis/tui/agents/update";
pub const AGENTS_SELECT: &'static str = "_dsh/cordis/tui/agents/select";
pub const AGENTS_NAVIGATE: &'static str = "_dsh/cordis/tui/agents/navigate";
pub const SESSION_CONFIG_SET: &'static str = "_dsh/cordis/tui/session-config/set";
pub const APPROVALS_UPDATE: &'static str = "_dsh/cordis/tui/approvals/update";
pub const APPROVAL_RESPOND: &'static str = "_dsh/cordis/tui/approvals/respond";
pub const UI_UPDATE: &'static str = "_dsh/cordis/tui/ui/update";
pub const UI_SELECTED: &'static str = "_dsh/cordis/tui/ui/selected";

pub const STATIC_PLUGINS_LIST: &'static str = "_dsh/plugins/list";
pub const PLUGINS_LIST: &'static str = "_dsh/cordis/plugins/list";
pub const PLUGIN_START: &'static str = "_dsh/cordis/plugins/start";
pub const PLUGIN_STOP: &'static str = "_dsh/cordis/plugins/stop";

/// The protocol version an `initialize` response advertises under
/// `agentCapabilities._meta.dsh.cordis.protocol`.
pub open spec fn advertised_protocol(initialize: Json) -> Option<u64> {
    as_u64(get_opt(get_opt(get_opt(get_opt(get(initialize, "agentCapabilities"@), "_meta"@), "dsh"@), "cordis"@), "protocol"@))
}

/// Whether the agent's `initialize` response advertises the Cordis
/// protocol version this client speaks.
pub fn advertised_by_agent(initialize: &Json) -> (b: bool)
    ensures
        b == (advertised_protocol(*initialize) == Some(PROTOCOL)),
{
    let protocol = get_in(get_in(get_in(get_in(initialize.get("agentCapabilities"), "_meta"), "dsh"), "cordis"), "protocol");
    match protocol {
        Some(p) => match p.as_u64() {
            Some(v) => v == PROTOCOL,
            None => false,
        },
        None => false,
    }
}

} // verus!
