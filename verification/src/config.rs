//! Projects, named workspaces and the stored configuration.

use vstd::prelude::*;

use crate::text::{decimal, owned, str_eq, with_decimal};

verus! {

/// A Node.js project: its folder name, its path, and the scripts of its
/// `package.json` (name and command).
pub struct Project {
    pub name: String,
    pub path: String,
    pub scripts: Vec<(String, String)>,
}

/// A named group of projects (a name, not a directory).
pub struct Workspace {
    pub id: String,
    pub name: String,
    pub projects: Vec<Project>,
}

/// The stored configuration: every workspace and the one in use.
pub struct AppConfig {
    pub active_workspace_id: String,
    pub workspaces: Vec<Workspace>,
}

pub open spec fn msg_no_workspace() -> Seq<char> {
    "至少需要一个工作区"@
}

pub open spec fn msg_unknown_active() -> Seq<char> {
    "activeWorkspaceId 不存在"@
}

/// Some workspace of the configuration has the active identifier.
pub open spec fn active_exists(c: AppConfig) -> bool {
    exists|i: int|
        0 <= i < c.workspaces@.len() && #[trigger] c.workspaces@[i].id@ == c.active_workspace_id@
}

/// Why a configuration may not be saved, if it may not.
pub open spec fn config_error(c: AppConfig) -> Option<Seq<char>> {
    if c.workspaces@.len() == 0 {
        Some(msg_no_workspace())
    } else if !active_exists(c) {
        Some(msg_unknown_active())
    } else {
        None
    }
}

/// The check that `save_app_config` makes before storing: at least one
/// workspace, and the active workspace identifier names one of them.
pub fn validate_app_config(config: &AppConfig) -> (r: Result<(), String>)
    ensures
        match config_error(*config) {
            Some(m) => r matches Err(e) && e@ == m,
            None => r is Ok,
        },
{
    if config.workspaces.len() == 0 {
        return Err(owned("至少需要一个工作区"));
    }
    let mut i: usize = 0;
    while i < config.workspaces.len()
        invariant
            i <= config.workspaces.len(),
            forall|k: int|
                0 <= k < i ==> config.workspaces@[k].id@ != config.active_workspace_id@,
        decreases config.workspaces.len() - i,
    {
        if str_eq(config.workspaces[i].id.as_str(), config.active_workspace_id.as_str()) {
            assert(config.workspaces@[i as int].id@ == config.active_workspace_id@);
            return Ok(());
        }
        i = i + 1;
    }
    Err(owned("activeWorkspaceId 不存在"))
}

/// A configuration may be saved exactly when it has a workspace and some
/// workspace, at any position, carries the active identifier; without
/// workspaces it is refused as empty, and otherwise as naming an unknown
/// active workspace.
pub proof fn lemma_config_accepted(c: AppConfig)
    ensures
        config_error(c) is None <==> (c.workspaces@.len() > 0 && exists|i: int|
            0 <= i < c.workspaces@.len() && #[trigger] c.workspaces@[i].id@ == c.active_workspace_id@),
        c.workspaces@.len() == 0 ==> config_error(c) == Some(msg_no_workspace()),
        (c.workspaces@.len() > 0 && forall|i: int|
            0 <= i < c.workspaces@.len() ==> #[trigger] c.workspaces@[i].id@ != c.active_workspace_id@)
            ==> config_error(c) == Some(msg_unknown_active()),
{
}

/// Whether a configuration may be saved does not depend on where the active
/// workspace stands in the list: a workspace carrying the active identifier
/// at any position makes a non-empty configuration acceptable.
pub proof fn lemma_active_anywhere(c: AppConfig, i: int)
    requires
        0 <= i < c.workspaces@.len(),
        c.workspaces@[i].id@ == c.active_workspace_id@,
    ensures
        config_error(c) is None,
{
}

pub open spec fn default_workspace_id() -> Seq<char> {
    "ws_default"@
}

/// The configuration of a first start: one empty workspace `默认` with the
/// identifier `ws_default`, which is active.
pub open spec fn is_default_config(c: AppConfig, projects: Seq<Project>) -> bool {
    &&& c.active_workspace_id@ == default_workspace_id()
    &&& c.workspaces@.len() == 1
    &&& c.workspaces@[0].id@ == default_workspace_id()
    &&& c.workspaces@[0].name@ == "默认"@
    &&& c.workspaces@[0].projects@ == projects
}

/// The configuration of a first start.
pub fn default_app_config() -> (c: AppConfig)
    ensures
        is_default_config(c, Seq::empty()),
{
    let id = owned("ws_default");
    let ws = Workspace { id: owned("ws_default"), name: owned("默认"), projects: Vec::new() };
    let mut workspaces: Vec<Workspace> = Vec::new();
    workspaces.push(ws);
    AppConfig { active_workspace_id: id, workspaces }
}

/// Whether start-up uses the stored configuration as it is: it could be read
/// and it has a workspace.
pub open spec fn stored_config_usable(stored: Option<AppConfig>) -> bool {
    stored matches Some(c) && c.workspaces@.len() > 0
}

/// The configuration to use at start-up, from what the store holds: the
/// stored configuration when it could be read and has a workspace; otherwise
/// the default one, with the projects of the older flat format (if any) in
/// its workspace.  The flag says that the store must be rewritten in the new
/// format.
pub fn resolve_app_config(stored: Option<AppConfig>, legacy_projects: Option<Vec<Project>>) -> (r: (
    AppConfig,
    bool,
))
    ensures
        stored_config_usable(stored) ==> r.0 == stored->0 && !r.1,
        !stored_config_usable(stored) ==> r.1 && is_default_config(
            r.0,
            match legacy_projects {
                Some(ps) => ps@,
                None => Seq::empty(),
            },
        ),
        r.0.workspaces@.len() > 0,
{
    if let Some(c) = stored {
        if c.workspaces.len() > 0 {
            return (c, false);
        }
    }
    let projects = match legacy_projects {
        Some(ps) => ps,
        None => Vec::new(),
    };
    let ws = Workspace { id: owned("ws_default"), name: owned("默认"), projects };
    let mut workspaces: Vec<Workspace> = Vec::new();
    workspaces.push(ws);
    (AppConfig { active_workspace_id: owned("ws_default"), workspaces }, true)
}

/// A configuration that `save_app_config` accepted is the one the next start
/// uses: `resolve_app_config` keeps it unchanged and rewrites nothing.
pub proof fn lemma_saved_config_is_loaded(c: AppConfig)
    requires
        config_error(c) is None,
    ensures
        stored_config_usable(Some(c)),
{
}

/// The configuration start-up makes when nothing usable was stored (the
/// default one, with or without projects of the older format) may be saved
/// as it is.
pub proof fn lemma_startup_config_saveable(c: AppConfig, projects: Seq<Project>)
    requires
        is_default_config(c, projects),
    ensures
        config_error(c) is None,
{
    assert(c.workspaces@[0].id@ == c.active_workspace_id@);
}

/// A new workspace identifier: `ws_` followed by the milliseconds since the
/// Unix epoch (0 when the clock is before the epoch).
pub fn workspace_id_from_millis(millis: Option<u128>) -> (id: String)
    ensures
        id@ == "ws_"@ + decimal(
            match millis {
                Some(m) => m as nat,
                None => 0,
            },
        ),
{
    let m: u128 = match millis {
        Some(m) => m,
        None => 0,
    };
    with_decimal("ws_", m)
}

} // verus!
