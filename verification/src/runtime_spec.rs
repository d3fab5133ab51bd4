//! What an application asks of the runtime at startup.

use crate::window::WindowIdentity;
use vstd::prelude::*;

verus! {

/// Who owns the windows.
#[derive(Clone, Copy, Debug, PartialEq, Eq, Structural)]
pub enum RuntimeMode {
    /// CEF creates them.
    Views,
    /// The host application does, and embeds CEF into them.
    Embedded,
}

/// Immutable startup intent for the runtime.
#[derive(Debug)]
pub struct RuntimeSpec {
    pub mode: RuntimeMode,
    pub start_url: String,
    /// Whether local assets are served; without them there is no `app://` scheme.
    pub has_asset_root: bool,
    pub profile_id: Option<String>,
    /// Whether the host says where the Chromium profile lives; otherwise its
    /// place derives from the profile id and the executable.
    pub has_cache_dir: bool,
    pub persist_session_cookies: bool,
    /// Whether the host schedules the message pump itself.
    pub has_scheduler: bool,
    /// How many browser delegates the host has.
    pub delegates: usize,
    /// How the window manager sees the windows this app opens.
    pub window_identity: WindowIdentity,
}

} // verus!
