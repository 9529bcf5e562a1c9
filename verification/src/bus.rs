//! Values exchanged between the UI loop and the protocol controller:
//! permission asks, catalog rows, skills, staged images and prompt blocks.

use vstd::prelude::*;
use crate::text::{opt_view, str_eq};

verus! {

/// One option from an ACP `session/request_permission` ask.
#[derive(Debug, Clone, PartialEq, Eq)]
pub struct PermissionAskOption {
    pub option_id: String,
    pub kind: String,
    pub name: String,
}

/// UI decision for a pending ACP permission ask.
#[derive(Debug, Clone, PartialEq, Eq)]
pub enum PermissionAskReply {
    Selected(String),
    Cancelled,
}

/// An empty option list cannot be selected from, so the ask is cancelled
/// instead of inventing an "allow once"; otherwise the user must choose.
pub fn permission_ask_empty_outcome(options: &[PermissionAskOption]) -> (r: Option<PermissionAskReply>)
    ensures
        options@.len() == 0 ==> r == Some(PermissionAskReply::Cancelled),
        options@.len() > 0 ==> r is None,
{
    if options.len() == 0 {
        Some(PermissionAskReply::Cancelled)
    } else {
        None
    }
}

/// Whether an option is the agent's "allow once" choice.
pub open spec fn is_allow_once(o: PermissionAskOption) -> bool {
    o.kind@ == "allow_once"@
}

/// The row highlighted when a permission ask opens: the first "allow once"
/// option the agent offered, else the first row.
pub fn permission_ask_default_sel(options: &[PermissionAskOption]) -> (r: usize)
    ensures
        (exists|i: int| 0 <= i < options@.len() && is_allow_once(options@[i])) ==> {
            &&& r < options@.len()
            &&& is_allow_once(options@[r as int])
            &&& forall|j: int| 0 <= j < r ==> !is_allow_once(#[trigger] options@[j])
        },
        (forall|i: int| 0 <= i < options@.len() ==> !is_allow_once(#[trigger] options@[i])) ==> r == 0,
{
    let mut i: usize = 0;
    while i < options.len()
        invariant
            i <= options@.len(),
            forall|j: int| 0 <= j < i ==> !is_allow_once(#[trigger] options@[j]),
        decreases options@.len() - i,
    {
        if str_eq(options[i].kind.as_str(), "allow_once") {
            return i;
        }
        i += 1;
    }
    0
}

/// Controller → UI status updates.
#[derive(Debug, Clone)]
#[allow(inconsistent_fields)]
pub enum CtlEvent {
    /// Spawning and initializing the runtime.
    Starting { runtime: String },
    /// `initialize` returned.
    Ready { server: String },
    /// `session/prompt` accepted into the durable inbox.
    PromptQueued { message_id: String },
    /// A Send Now request settled; a rejected concurrent prompt degrades to
    /// the client queue without changing the active turn.
    SteerSettled { message_id: u64, deferred: bool },
    /// A command failed.
    Error(String),
    /// The user's stop was accepted; `session/cancel` is on the wire.
    CancelRequested,
    /// The prompt settled after the abort.
    Interrupted,
    /// Host model catalog and advertised composition select.
    Catalog { models: Vec<CatalogModel>, presets: Vec<CatalogPreset> },
    /// Host skill catalog arrived.
    Skills { skills: Vec<SkillInfo> },
    /// Dynamic plugins owned by the current Host Agent.
    Plugins { plugins: Vec<DynamicPluginItem> },
    /// ACP session modes (permission / `session/set_mode`).
    SessionModes { modes: Vec<CatalogPreset>, current: Option<String> },
    /// The agent accepted a composition switch.
    PresetSet { preset: String },
    /// Selectable reasoning efforts for the current model.
    Efforts { efforts: Vec<String>, default: Option<String> },
    /// A client-side control call succeeded.
    TuiOpDone(String),
    /// A client-side control call failed (or is unsupported on this transport).
    TuiOpFailed(String),
    /// ACP initialize / authenticate status.
    Auth(crate::acp_auth::AuthSnapshot),
    /// Open the client `/auth` surface.
    OpenAuth,
    /// The agent advertised `loadSession`.
    AgentCaps { load_session: bool },
    /// `session/new` or `session/load` resolved; the UI must use this id.
    SessionBound { session_id: String, notice: Option<String> },
    /// `session/list` rows (`prefix` is the `/resume` argument, if any).
    SessionList { sessions: Vec<SessionListItem>, prefix: Option<String> },
    /// `session/list` missing or failed; the UI falls back to local logs.
    SessionListUnavailable { prefix: Option<String>, error: String },
}

/// One row from ACP `session/list`.
#[derive(Debug, Clone)]
pub struct SessionListItem {
    pub id: String,
    pub title: Option<String>,
    pub updated_at: Option<String>,
}

/// One backend-owned dynamic plugin exposed to the plugin picker.
#[derive(Debug, Clone, PartialEq, Eq)]
pub struct DynamicPluginItem {
    pub id: String,
    pub name: String,
    pub package_id: String,
    pub running: bool,
}

/// One backend-owned dynamic Cordis plugin, as the plugin picker lists it.
#[derive(Debug, Clone, PartialEq, Eq)]
pub struct CordisPluginItem {
    pub id: String,
    pub name: String,
    pub package_id: String,
    pub status: String,
    pub approval_request_id: Option<String>,
}

/// One static Host plugin entry, as `/plugins` lists it.
#[derive(Debug, Clone, PartialEq, Eq)]
pub struct StaticPluginItem {
    pub entry_id: String,
    pub module_name: String,
    pub enabled: bool,
    pub fiber_phase: Option<String>,
}

/// One model of the host catalog.
#[derive(Debug, Clone)]
pub struct CatalogModel {
    pub provider: String,
    pub id: String,
    pub name: String,
    pub vision: bool,
}

/// One advertised composition choice (agent preset) or session mode.
#[derive(Debug, Clone)]
pub struct CatalogPreset {
    pub id: String,
    pub name: String,
    pub description: String,
    pub broken: bool,
}

/// The standard config change an advertised command stands for.
#[derive(Debug, Clone, PartialEq, Eq)]
pub struct CommandConfigAction {
    pub config_id: String,
    pub value: String,
    pub reset_value: Option<String>,
}

/// One user-invocable command from `available_commands_update`.
#[derive(Debug, Clone, PartialEq, Eq)]
pub struct SkillInfo {
    pub name: String,
    pub description: String,
    pub config_action: Option<CommandConfigAction>,
    /// Advertised as a command handled by the local client plane.
    pub client_command: bool,
}

/// A catalog model with its strings as character sequences.
#[verifier::ext_equal]
pub struct CatalogModelView {
    pub provider: Seq<char>,
    pub id: Seq<char>,
    pub name: Seq<char>,
    pub vision: bool,
}

impl View for CatalogModel {
    type V = CatalogModelView;

    open spec fn view(&self) -> CatalogModelView {
        CatalogModelView { provider: self.provider@, id: self.id@, name: self.name@, vision: self.vision }
    }
}

/// A catalog preset with its strings as character sequences.
#[verifier::ext_equal]
pub struct CatalogPresetView {
    pub id: Seq<char>,
    pub name: Seq<char>,
    pub description: Seq<char>,
    pub broken: bool,
}

impl View for CatalogPreset {
    type V = CatalogPresetView;

    open spec fn view(&self) -> CatalogPresetView {
        CatalogPresetView { id: self.id@, name: self.name@, description: self.description@, broken: self.broken }
    }
}

/// A command's config action with its strings as character sequences.
#[verifier::ext_equal]
pub struct CommandConfigActionView {
    pub config_id: Seq<char>,
    pub value: Seq<char>,
    pub reset_value: Option<Seq<char>>,
}

impl View for CommandConfigAction {
    type V = CommandConfigActionView;

    open spec fn view(&self) -> CommandConfigActionView {
        CommandConfigActionView { config_id: self.config_id@, value: self.value@, reset_value: opt_view(self.reset_value) }
    }
}

/// The view of an optional config action.
pub open spec fn action_view(a: Option<CommandConfigAction>) -> Option<CommandConfigActionView> {
    match a {
        Some(a) => Some(a@),
        None => None,
    }
}

/// A skill with its strings as character sequences.
#[verifier::ext_equal]
pub struct SkillInfoView {
    pub name: Seq<char>,
    pub description: Seq<char>,
    pub config_action: Option<CommandConfigActionView>,
    pub client_command: bool,
}

impl View for SkillInfo {
    type V = SkillInfoView;

    open spec fn view(&self) -> SkillInfoView {
        SkillInfoView {
            name: self.name@,
            description: self.description@,
            config_action: action_view(self.config_action),
            client_command: self.client_command,
        }
    }
}

/// One staged image on its way to the host (base64 payload).
#[derive(Debug, Clone)]
pub struct ImagePart {
    pub data: String,
    pub media_type: String,
    pub name: String,
    /// Local path when the raster came from a file; `"clipboard"` otherwise.
    pub path: String,
}

/// One content block of a composer prompt, in draft order.
#[derive(Debug, Clone)]
pub enum PromptBlock {
    Text(String),
    Image(ImagePart),
}

/// UI → controller commands.
pub enum Cmd {
    Prompt {
        session_id: String,
        text: String,
    },
    /// Send another prompt immediately while a turn is active.
    Steer {
        session_id: String,
        message_id: u64,
        text: String,
    },
    /// A prompt whose text and images stay in draft order.
    PromptImages {
        session_id: String,
        blocks: Vec<PromptBlock>,
    },
    /// The image-capable form of `Steer`.
    SteerImages {
        session_id: String,
        message_id: u64,
        blocks: Vec<PromptBlock>,
    },
    /// Interrupt the active turn.
    Interrupt {
        session_id: String,
    },
    /// Select a model or effort for the session.
    SelectModel {
        session_id: String,
        provider: Option<String>,
        model: Option<String>,
        effort: Option<String>,
    },
    FetchCatalog,
    /// Fetch the user-invocable host skills for the slash menu.
    FetchSkills,
    /// Fetch the dynamic plugins this agent owns.
    FetchPlugins {
        agent_id: String,
    },
    /// Stop or restore one dynamic plugin.
    SetPluginEnabled {
        agent_id: String,
        plugin_id: String,
        enabled: bool,
    },
    /// Invoke a Client Plugin command on the compositor plane (never a prompt).
    InvokePluginCommand {
        name: String,
        args: String,
    },
    /// A `/theme` pick committed on the Client tree.
    PluginThemeSelected {
        agent_id: String,
        id: String,
    },
    /// A semantic event from a Plugin overlay.
    PluginOverlayEvent {
        id: String,
        event: String,
        value: Option<crate::json::Json>,
    },
    FetchEfforts {
        provider: String,
        model: String,
    },
    SetPermission {
        session_id: String,
        preset: String,
    },
    /// Pick the agent preset composed on the session's first prompt.
    SetPreset {
        session_id: String,
        preset: String,
    },
    /// An advertised command action mapped onto `session/set_config_option`.
    SetConfigOption {
        config_id: String,
        value: String,
    },
    /// `authenticate`, with the values typed for the method.
    Authenticate {
        method_id: String,
        values: crate::strmap::StringMap,
    },
    /// `session/new`.
    NewSession,
    /// `session/list`, optionally filtered by a typed id prefix.
    ListSessions {
        prefix: Option<String>,
    },
    /// `session/load`.
    LoadSession {
        session_id: String,
    },
    Shutdown,
}

} // verus!
