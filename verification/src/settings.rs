//! From the startup intent to the settings that CEF is initialized with.

use crate::error::RuntimeError;
use crate::layout::Platform;
use crate::path::{LayoutPath, PathRoot, PathView};
use vstd::prelude::*;

verus! {

/// The paths that a run of the runtime uses.
#[derive(Debug, PartialEq, Eq)]
pub struct RuntimeLayout {
    pub exe: LayoutPath,
    pub cef_root: LayoutPath,
    pub cache_dir: LayoutPath,
    /// On macOS the locales are found through the framework bundle.
    pub locales_dir: Option<LayoutPath>,
}

/// The mathematical value of a [`RuntimeLayout`].
#[verifier::ext_equal]
pub struct RuntimeLayoutView {
    pub exe: PathView,
    pub cef_root: PathView,
    pub cache_dir: PathView,
    pub locales_dir: Option<PathView>,
}

/// The value of an optional path.
pub open spec fn optional_path(path: Option<LayoutPath>) -> Option<PathView> {
    match path {
        Some(p) => Some(p@),
        None => None,
    }
}

impl View for RuntimeLayout {
    type V = RuntimeLayoutView;

    open spec fn view(&self) -> RuntimeLayoutView {
        RuntimeLayoutView {
            exe: self.exe@,
            cef_root: self.cef_root@,
            cache_dir: self.cache_dir@,
            locales_dir: optional_path(self.locales_dir),
        }
    }
}

/// The layout of a run whose cache directory stands at `cache_dir`.
pub open spec fn resolved_layout(platform: Platform, cache_dir: PathRoot) -> RuntimeLayoutView {
    RuntimeLayoutView {
        exe: PathView::at(PathRoot::Executable),
        cef_root: PathView::at(PathRoot::CefRoot),
        cache_dir: PathView::at(cache_dir),
        locales_dir: match platform {
            Platform::MacOs => None,
            _ => Some(PathView::at(PathRoot::CefRoot).join("locales"@)),
        },
    }
}

/// What the caller has to do next to resolve the layout.
#[derive(Clone, Copy, Debug, PartialEq, Eq, Structural)]
pub enum LayoutStage {
    /// Create the cache directory and its missing ancestors.
    CreateCacheDir,
    /// Detect the CEF root.
    DetectCefRoot,
    /// Validate the CEF runtime at the detected root.
    ValidateCefRoot,
    /// Canonicalize the detected root.
    CanonicalizeCefRoot,
    /// Nothing: the layout is resolved or has failed to.
    Finished,
}

/// What came of the last thing that was done.
pub enum LayoutReply {
    CacheDir(Result<(), std::io::Error>),
    /// Whether a root was found.
    Detected(bool),
    /// The message says what is wrong with the installation.
    Validated(Result<(), String>),
    /// Whether the root resolved.
    Canonical(bool),
}

/// What a reply comes to.
pub enum LayoutOutcome {
    /// More has to be done.
    Pending,
    Resolved,
    CacheUnavailable(std::io::Error),
    NotInstalled,
    Invalid(Seq<char>),
}

/// What `reply` to `stage` comes to. A reply to another question comes to nothing.
pub open spec fn layout_outcome(stage: LayoutStage, reply: LayoutReply) -> LayoutOutcome {
    match (stage, reply) {
        (LayoutStage::CreateCacheDir, LayoutReply::CacheDir(Err(e))) => {
            LayoutOutcome::CacheUnavailable(e)
        },
        (LayoutStage::DetectCefRoot, LayoutReply::Detected(false)) => LayoutOutcome::NotInstalled,
        (LayoutStage::ValidateCefRoot, LayoutReply::Validated(Err(message))) => {
            LayoutOutcome::Invalid(message@)
        },
        (LayoutStage::CanonicalizeCefRoot, LayoutReply::Canonical(found)) => if found {
            LayoutOutcome::Resolved
        } else {
            LayoutOutcome::NotInstalled
        },
        _ => LayoutOutcome::Pending,
    }
}

/// Where `reply` takes the resolution.
pub open spec fn layout_next(stage: LayoutStage, reply: LayoutReply) -> LayoutStage {
    if layout_outcome(stage, reply) !is Pending {
        LayoutStage::Finished
    } else {
        match (stage, reply) {
            (LayoutStage::CreateCacheDir, LayoutReply::CacheDir(_)) => LayoutStage::DetectCefRoot,
            (LayoutStage::DetectCefRoot, LayoutReply::Detected(_)) => LayoutStage::ValidateCefRoot,
            (LayoutStage::ValidateCefRoot, LayoutReply::Validated(_)) => {
                LayoutStage::CanonicalizeCefRoot
            },
            _ => stage,
        }
    }
}

/// `result` is what `outcome` says.
pub open spec fn is_layout_result(
    result: Option<Result<RuntimeLayout, RuntimeError>>,
    outcome: LayoutOutcome,
    platform: Platform,
    cache_dir: PathRoot,
) -> bool {
    match outcome {
        LayoutOutcome::Pending => result is None,
        LayoutOutcome::Resolved => {
            &&& result matches Some(Ok(layout))
            &&& layout@ == resolved_layout(platform, cache_dir)
        },
        LayoutOutcome::CacheUnavailable(e) => {
            &&& result matches Some(Err(RuntimeError::CacheUnavailable { path, source }))
            &&& path@ == PathView::at(cache_dir)
            &&& source == e
        },
        LayoutOutcome::NotInstalled => {
            result matches Some(Err(RuntimeError::CefNotInstalled))
        },
        LayoutOutcome::Invalid(message) => {
            &&& result matches Some(Err(RuntimeError::InvalidCefInstallation(text)))
            &&& text@ == message
        },
    }
}

/// The path that `stage` works on, the cache directory standing at `cache_dir`.
pub open spec fn stage_path(stage: LayoutStage, cache_dir: PathRoot) -> Option<PathView> {
    match stage {
        LayoutStage::CreateCacheDir => Some(PathView::at(cache_dir)),
        LayoutStage::ValidateCefRoot => Some(PathView::at(PathRoot::DetectedCefRoot)),
        LayoutStage::CanonicalizeCefRoot => Some(PathView::at(PathRoot::DetectedCefRoot)),
        _ => None,
    }
}

/// The resolution of the runtime layout in progress.
pub struct LayoutResolver {
    pub platform: Platform,
    /// The name that the profile directory is derived from, when it is.
    pub profile_name: String,
    /// Where the cache directory stands.
    pub cache_dir: PathRoot,
    pub stage: LayoutStage,
}

/// Begins to resolve the layout. The cache is isolated per executable unless
/// the host names a cache directory of its own.
pub fn resolve_layout(
    platform: Platform,
    profile_id: Option<String>,
    has_cache_dir: bool,
) -> (resolver: LayoutResolver)
    ensures
        resolver.platform == platform,
        resolver.profile_name@ == (match profile_id {
            Some(name) => name@,
            None => "kurogane-app"@,
        }),
        resolver.cache_dir == (if has_cache_dir {
            PathRoot::HostCacheDir
        } else {
            PathRoot::ProfileDir
        }),
        resolver.stage == LayoutStage::CreateCacheDir,
{
    let profile_name = match profile_id {
        Some(name) => name,
        None => "kurogane-app".to_owned(),
    };
    let cache_dir = if has_cache_dir {
        PathRoot::HostCacheDir
    } else {
        PathRoot::ProfileDir
    };
    LayoutResolver { platform, profile_name, cache_dir, stage: LayoutStage::CreateCacheDir }
}

impl LayoutResolver {
    /// The layout, all of its parts having been found.
    fn layout(&self) -> (layout: RuntimeLayout)
        ensures
            layout@ == resolved_layout(self.platform, self.cache_dir),
            layout.cache_dir.root == self.cache_dir,
            layout.cache_dir.parts@.len() == 0,
            layout.exe.root == PathRoot::Executable,
            layout.exe.parts@.len() == 0,
            layout.cef_root.root == PathRoot::CefRoot,
            layout.cef_root.parts@.len() == 0,
    {
        let cef_root = LayoutPath::at(PathRoot::CefRoot);
        let locales_dir = match self.platform {
            Platform::MacOs => None,
            _ => Some(cef_root.join("locales")),
        };
        RuntimeLayout {
            exe: LayoutPath::at(PathRoot::Executable),
            cef_root,
            cache_dir: LayoutPath::at(self.cache_dir),
            locales_dir,
        }
    }

    /// The path that the current stage works on: the directory to create, or
    /// the root to validate or to canonicalize.
    pub fn path(&self) -> (path: Option<LayoutPath>)
        ensures
            optional_path(path) == stage_path(self.stage, self.cache_dir),
            path is Some <==> self.stage == LayoutStage::CreateCacheDir || self.stage
                == LayoutStage::ValidateCefRoot || self.stage == LayoutStage::CanonicalizeCefRoot,
            path matches Some(p) ==> {
                &&& p.parts@.len() == 0
                &&& p.root == if self.stage == LayoutStage::CreateCacheDir {
                    self.cache_dir
                } else {
                    PathRoot::DetectedCefRoot
                }
            },
    {
        match self.stage {
            LayoutStage::CreateCacheDir => Some(LayoutPath::at(self.cache_dir)),
            LayoutStage::ValidateCefRoot | LayoutStage::CanonicalizeCefRoot => Some(
                LayoutPath::at(PathRoot::DetectedCefRoot),
            ),
            _ => None,
        }
    }

    /// Takes in what came of the last thing that was done. Returns the layout
    /// or the first failure, once there is one.
    pub fn step(&mut self, reply: LayoutReply) -> (result: Option<
        Result<RuntimeLayout, RuntimeError>,
    >)
        ensures
            final(self).platform == old(self).platform,
            final(self).profile_name == old(self).profile_name,
            final(self).cache_dir == old(self).cache_dir,
            final(self).stage == layout_next(old(self).stage, reply),
            is_layout_result(
                result,
                layout_outcome(old(self).stage, reply),
                old(self).platform,
                old(self).cache_dir,
            ),
            result matches Some(Ok(layout)) ==> {
                &&& layout.cache_dir.root == old(self).cache_dir
                &&& layout.cache_dir.parts@.len() == 0
                &&& layout.exe.root == PathRoot::Executable
                &&& layout.exe.parts@.len() == 0
                &&& layout.cef_root.root == PathRoot::CefRoot
                &&& layout.cef_root.parts@.len() == 0
            },
    {
        match (self.stage, reply) {
            (LayoutStage::CreateCacheDir, LayoutReply::CacheDir(created)) => match created {
                Ok(_) => {
                    self.stage = LayoutStage::DetectCefRoot;
                    None
                },
                Err(source) => {
                    self.stage = LayoutStage::Finished;
                    let path = LayoutPath::at(self.cache_dir);
                    Some(Err(RuntimeError::CacheUnavailable { path, source }))
                },
            },
            (LayoutStage::DetectCefRoot, LayoutReply::Detected(found)) => if found {
                self.stage = LayoutStage::ValidateCefRoot;
                None
            } else {
                self.stage = LayoutStage::Finished;
                Some(Err(RuntimeError::CefNotInstalled))
            },
            (LayoutStage::ValidateCefRoot, LayoutReply::Validated(valid)) => match valid {
                Ok(_) => {
                    self.stage = LayoutStage::CanonicalizeCefRoot;
                    None
                },
                Err(message) => {
                    self.stage = LayoutStage::Finished;
                    Some(Err(RuntimeError::InvalidCefInstallation(message)))
                },
            },
            (LayoutStage::CanonicalizeCefRoot, LayoutReply::Canonical(found)) => {
                self.stage = LayoutStage::Finished;
                if found {
                    proof {
                        lemma_layout_is_where_it_was_created(self.platform, self.cache_dir);
                    }
                    Some(Ok(self.layout()))
                } else {
                    Some(Err(RuntimeError::CefNotInstalled))
                }
            },
            _ => None,
        }
    }
}

/// What a list of replies comes to, taken from `stage` on: the first that
/// comes to anything decides.
pub open spec fn replies_outcome(stage: LayoutStage, replies: Seq<LayoutReply>) -> LayoutOutcome
    decreases replies.len(),
{
    if replies.len() == 0 {
        LayoutOutcome::Pending
    } else {
        match layout_outcome(stage, replies[0]) {
            LayoutOutcome::Pending => replies_outcome(
                layout_next(stage, replies[0]),
                replies.drop_first(),
            ),
            decided => decided,
        }
    }
}

/// The layout resolves exactly when the cache directory can be created and a
/// CEF root is found, valid and resolvable; otherwise the first of these that
/// fails says why.
pub proof fn lemma_first_failure_decides(
    created: Result<(), std::io::Error>,
    detected: bool,
    validated: Result<(), String>,
    canonical: bool,
)
    ensures
        replies_outcome(
            LayoutStage::CreateCacheDir,
            seq![
                LayoutReply::CacheDir(created),
                LayoutReply::Detected(detected),
                LayoutReply::Validated(validated),
                LayoutReply::Canonical(canonical),
            ],
        ) == (match created {
            Err(e) => LayoutOutcome::CacheUnavailable(e),
            Ok(_) => if !detected {
                LayoutOutcome::NotInstalled
            } else {
                match validated {
                    Err(message) => LayoutOutcome::Invalid(message@),
                    Ok(_) => if canonical {
                        LayoutOutcome::Resolved
                    } else {
                        LayoutOutcome::NotInstalled
                    },
                }
            },
        }),
{
    let all = seq![
        LayoutReply::CacheDir(created),
        LayoutReply::Detected(detected),
        LayoutReply::Validated(validated),
        LayoutReply::Canonical(canonical),
    ];
    reveal_with_fuel(replies_outcome, 5);
    assert(all.drop_first()[0] == all[1]);
    assert(all.drop_first().drop_first()[0] == all[2]);
    assert(all.drop_first().drop_first().drop_first()[0] == all[3]);
}

/// The settings that CEF is initialized with. A path left out, and everything
/// not named here, keeps CEF's default.
#[derive(Debug, PartialEq, Eq)]
pub struct Settings {
    pub browser_subprocess_path: Option<LayoutPath>,
    pub framework_dir_path: Option<LayoutPath>,
    pub resources_dir_path: Option<LayoutPath>,
    pub locales_dir_path: Option<LayoutPath>,
    pub cache_path: Option<LayoutPath>,
    pub root_cache_path: Option<LayoutPath>,
    pub external_message_pump: i32,
    pub persist_session_cookies: i32,
    pub no_sandbox: i32,
}

/// The mathematical value of [`Settings`].
#[verifier::ext_equal]
pub struct SettingsView {
    pub browser_subprocess_path: Option<PathView>,
    pub framework_dir_path: Option<PathView>,
    pub resources_dir_path: Option<PathView>,
    pub locales_dir_path: Option<PathView>,
    pub cache_path: Option<PathView>,
    pub root_cache_path: Option<PathView>,
    pub external_message_pump: i32,
    pub persist_session_cookies: i32,
    pub no_sandbox: i32,
}

impl View for Settings {
    type V = SettingsView;

    open spec fn view(&self) -> SettingsView {
        SettingsView {
            browser_subprocess_path: optional_path(self.browser_subprocess_path),
            framework_dir_path: optional_path(self.framework_dir_path),
            resources_dir_path: optional_path(self.resources_dir_path),
            locales_dir_path: optional_path(self.locales_dir_path),
            cache_path: optional_path(self.cache_path),
            root_cache_path: optional_path(self.root_cache_path),
            external_message_pump: self.external_message_pump,
            persist_session_cookies: self.persist_session_cookies,
            no_sandbox: self.no_sandbox,
        }
    }
}

/// A flag as CEF takes it.
pub open spec fn flag(set: bool) -> i32 {
    if set {
        1
    } else {
        0
    }
}

/// The settings for `layout`. The profile is persistent: both cache paths are
/// the cache directory. The sandbox is off on every platform.
///
/// On macOS the subprocesses run as the helper app where there is one, and CEF
/// finds its resources and locales in the framework bundle.
pub open spec fn settings_for(
    platform: Platform,
    layout: RuntimeLayoutView,
    persist_session_cookies: bool,
    external_message_pump: bool,
    has_helper_app: bool,
) -> SettingsView {
    let macos = platform == Platform::MacOs;
    SettingsView {
        browser_subprocess_path: Some(
            if macos && has_helper_app {
                PathView::at(PathRoot::HelperApp)
            } else {
                layout.exe
            },
        ),
        framework_dir_path: if macos {
            Some(layout.cef_root.join("Chromium Embedded Framework.framework"@))
        } else {
            None
        },
        resources_dir_path: if macos {
            None
        } else {
            Some(layout.cef_root)
        },
        locales_dir_path: if macos {
            None
        } else {
            layout.locales_dir
        },
        cache_path: Some(layout.cache_dir),
        root_cache_path: Some(layout.cache_dir),
        external_message_pump: flag(external_message_pump),
        persist_session_cookies: flag(persist_session_cookies),
        no_sandbox: 1,
    }
}

/// A flag as CEF takes it.
pub fn to_flag(set: bool) -> (value: i32)
    ensures
        value == flag(set),
        set ==> value == 1,
        !set ==> value == 0,
{
    if set {
        1
    } else {
        0
    }
}

/// The settings for `layout`. `has_helper_app` says whether the executable
/// runs from a bundle with a helper app; it matters on macOS alone.
pub fn build_settings(
    platform: Platform,
    layout: &RuntimeLayout,
    persist_session_cookies: bool,
    external_message_pump: bool,
    has_helper_app: bool,
) -> (settings: Settings)
    ensures
        settings@ == settings_for(
            platform,
            layout@,
            persist_session_cookies,
            external_message_pump,
            has_helper_app,
        ),
        settings.cache_path matches Some(p) && p@ == layout.cache_dir@,
        settings.root_cache_path matches Some(p) && p@ == layout.cache_dir@,
        settings.browser_subprocess_path matches Some(p) && (if platform == Platform::MacOs
            && has_helper_app {
            p.root == PathRoot::HelperApp && p.parts@.len() == 0
        } else {
            p@ == layout.exe@
        }),
        platform == Platform::MacOs ==> settings.resources_dir_path is None
            && settings.locales_dir_path is None,
        platform != Platform::MacOs ==> {
            &&& settings.resources_dir_path matches Some(p) && p@ == layout.cef_root@
            &&& settings.locales_dir_path is Some <==> layout.locales_dir is Some
            &&& settings.locales_dir_path matches Some(p) ==> p@ == layout.locales_dir->0@
            &&& settings.framework_dir_path is None
        },
        platform == Platform::MacOs ==> (settings.framework_dir_path matches Some(p) && {
            &&& p@.root == layout.cef_root@.root
            &&& p@.parts == layout.cef_root@.parts.push("Chromium Embedded Framework.framework"@)
        }),
        settings.persist_session_cookies == if persist_session_cookies {
            1int
        } else {
            0
        },
        settings.external_message_pump == if external_message_pump {
            1int
        } else {
            0
        },
        settings.no_sandbox == 1,
{
    let no_sandbox: i32 = 1;
    match platform {
        Platform::MacOs => {
            let subprocess = if has_helper_app {
                LayoutPath::at(PathRoot::HelperApp)
            } else {
                layout.exe.clone()
            };
            Settings {
                browser_subprocess_path: Some(subprocess),
                framework_dir_path: Some(
                    layout.cef_root.join("Chromium Embedded Framework.framework"),
                ),
                resources_dir_path: None,
                locales_dir_path: None,
                cache_path: Some(layout.cache_dir.clone()),
                root_cache_path: Some(layout.cache_dir.clone()),
                external_message_pump: to_flag(external_message_pump),
                persist_session_cookies: to_flag(persist_session_cookies),
                no_sandbox,
            }
        },
        _ => {
            let locales_dir_path = match &layout.locales_dir {
                Some(path) => Some(path.clone()),
                None => None,
            };
            Settings {
                browser_subprocess_path: Some(layout.exe.clone()),
                framework_dir_path: None,
                resources_dir_path: Some(layout.cef_root.clone()),
                locales_dir_path,
                cache_path: Some(layout.cache_dir.clone()),
                root_cache_path: Some(layout.cache_dir.clone()),
                external_message_pump: to_flag(external_message_pump),
                persist_session_cookies: to_flag(persist_session_cookies),
                no_sandbox,
            }
        },
    }
}

/// The profile is never incognito: whatever the layout and the options, CEF
/// gets the layout's cache directory, for the profile and for its root alike.
pub proof fn lemma_profile_is_persistent(
    platform: Platform,
    layout: RuntimeLayoutView,
    persist_session_cookies: bool,
    external_message_pump: bool,
    has_helper_app: bool,
)
    ensures
        ({
            let settings = settings_for(
                platform,
                layout,
                persist_session_cookies,
                external_message_pump,
                has_helper_app,
            );
            &&& settings.cache_path == Some(layout.cache_dir)
            &&& settings.root_cache_path == settings.cache_path
        }),
{
}

/// The layout that a resolution ends with has as its cache directory the very
/// path that was created for it, and everything else at its place: the
/// executable, the canonical CEF root and, but on macOS, the locales below it.
pub proof fn lemma_layout_is_where_it_was_created(platform: Platform, cache_dir: PathRoot)
    ensures
        ({
            let layout = resolved_layout(platform, cache_dir);
            &&& layout.cache_dir.root == cache_dir
            &&& layout.cache_dir.parts.len() == 0
            &&& stage_path(LayoutStage::CreateCacheDir, cache_dir) == Some(layout.cache_dir)
            &&& layout.exe.root == PathRoot::Executable
            &&& layout.exe.parts.len() == 0
            &&& layout.cef_root.root == PathRoot::CefRoot
            &&& layout.cef_root.parts.len() == 0
            &&& layout.locales_dir is None <==> platform == Platform::MacOs
            &&& layout.locales_dir matches Some(locales) ==> {
                &&& locales.root == PathRoot::CefRoot
                &&& locales.parts == seq!["locales"@]
            }
        }),
{
    assert(PathView::at(PathRoot::CefRoot).join("locales"@).parts =~= seq!["locales"@]);
}

/// The directory that the host asked for, or the profile directory where it
/// asked for none, is what CEF is given: no other place of the cache survives
/// the way from the layout to the settings.
pub proof fn lemma_cache_dir_reaches_cef(
    platform: Platform,
    cache_dir: PathRoot,
    persist_session_cookies: bool,
    external_message_pump: bool,
    has_helper_app: bool,
)
    ensures
        ({
            let settings = settings_for(
                platform,
                resolved_layout(platform, cache_dir),
                persist_session_cookies,
                external_message_pump,
                has_helper_app,
            );
            &&& settings.cache_path matches Some(p) && p.root == cache_dir && p.parts.len() == 0
            &&& settings.root_cache_path matches Some(p) && p.root == cache_dir && p.parts.len()
                == 0
        }),
{
}

/// What CEF finds where: outside macOS its subprocesses are the executable and
/// its resources the CEF root; on macOS the subprocesses are the helper app
/// where there is one, and the rest is in the framework below the CEF root.
pub proof fn lemma_settings_point_at_the_layout(
    platform: Platform,
    layout: RuntimeLayoutView,
    persist_session_cookies: bool,
    external_message_pump: bool,
    has_helper_app: bool,
)
    ensures
        ({
            let settings = settings_for(
                platform,
                layout,
                persist_session_cookies,
                external_message_pump,
                has_helper_app,
            );
            &&& settings.cache_path == Some(layout.cache_dir)
            &&& settings.root_cache_path == Some(layout.cache_dir)
            &&& settings.browser_subprocess_path matches Some(p) && (if platform == Platform::MacOs
                && has_helper_app {
                p.root == PathRoot::HelperApp && p.parts.len() == 0
            } else {
                p == layout.exe
            })
            &&& platform != Platform::MacOs ==> {
                &&& settings.resources_dir_path == Some(layout.cef_root)
                &&& settings.locales_dir_path == layout.locales_dir
                &&& settings.framework_dir_path is None
            }
            &&& platform == Platform::MacOs ==> {
                &&& settings.resources_dir_path is None
                &&& settings.locales_dir_path is None
                &&& settings.framework_dir_path matches Some(p) && p.root == layout.cef_root.root
                    && p.parts == layout.cef_root.parts.push(
                    "Chromium Embedded Framework.framework"@,
                )
            }
            &&& settings.persist_session_cookies == 1 <==> persist_session_cookies
            &&& settings.persist_session_cookies == 0 <==> !persist_session_cookies
            &&& settings.external_message_pump == 1 <==> external_message_pump
            &&& settings.external_message_pump == 0 <==> !external_message_pump
            &&& settings.no_sandbox == 1
        }),
{
}

/// Nothing of the settings or of the layout is lost in their mathematical values.
pub proof fn lemma_settings_value_is_faithful(settings: &Settings, layout: &RuntimeLayout)
    ensures
        settings@.browser_subprocess_path == optional_path(settings.browser_subprocess_path),
        settings@.framework_dir_path == optional_path(settings.framework_dir_path),
        settings@.resources_dir_path == optional_path(settings.resources_dir_path),
        settings@.locales_dir_path == optional_path(settings.locales_dir_path),
        settings@.cache_path == optional_path(settings.cache_path),
        settings@.root_cache_path == optional_path(settings.root_cache_path),
        settings@.external_message_pump == settings.external_message_pump,
        settings@.persist_session_cookies == settings.persist_session_cookies,
        settings@.no_sandbox == settings.no_sandbox,
        layout@.exe == layout.exe@,
        layout@.cef_root == layout.cef_root@,
        layout@.cache_dir == layout.cache_dir@,
        layout@.locales_dir is Some <==> layout.locales_dir is Some,
        layout.locales_dir matches Some(p) ==> layout@.locales_dir == Some(p@),
        settings.cache_path matches Some(p) ==> settings@.cache_path == Some(p@),
        settings.cache_path is None ==> settings@.cache_path is None,
{
}

/// What each reply comes to: the result names the failure that the reply
/// reports and nothing else, there is a layout exactly when the canonical root
/// was found last, and a reply to another question changes nothing.
pub proof fn lemma_layout_step_says_what_happened(
    stage: LayoutStage,
    reply: LayoutReply,
    result: Option<Result<RuntimeLayout, RuntimeError>>,
    platform: Platform,
    cache_dir: PathRoot,
)
    requires
        is_layout_result(result, layout_outcome(stage, reply), platform, cache_dir),
    ensures
        ({
            let next = layout_next(stage, reply);
            match (stage, reply) {
                (LayoutStage::CreateCacheDir, LayoutReply::CacheDir(Ok(_))) => {
                    result is None && next == LayoutStage::DetectCefRoot
                },
                (LayoutStage::CreateCacheDir, LayoutReply::CacheDir(Err(e))) => {
                    &&& next == LayoutStage::Finished
                    &&& result matches Some(Err(RuntimeError::CacheUnavailable { path, source }))
                    &&& source == e
                    &&& path.root == cache_dir
                    &&& path.parts@.len() == 0
                },
                (LayoutStage::DetectCefRoot, LayoutReply::Detected(found)) => if found {
                    result is None && next == LayoutStage::ValidateCefRoot
                } else {
                    &&& next == LayoutStage::Finished
                    &&& result matches Some(Err(RuntimeError::CefNotInstalled))
                },
                (LayoutStage::ValidateCefRoot, LayoutReply::Validated(Ok(_))) => {
                    result is None && next == LayoutStage::CanonicalizeCefRoot
                },
                (LayoutStage::ValidateCefRoot, LayoutReply::Validated(Err(message))) => {
                    &&& next == LayoutStage::Finished
                    &&& result matches Some(Err(RuntimeError::InvalidCefInstallation(text)))
                    &&& text@ == message@
                },
                (LayoutStage::CanonicalizeCefRoot, LayoutReply::Canonical(found)) => {
                    &&& next == LayoutStage::Finished
                    &&& if found {
                        result matches Some(Ok(_))
                    } else {
                        result matches Some(Err(RuntimeError::CefNotInstalled))
                    }
                },
                _ => result is None && next == stage,
            }
        }),
{
    if let Some(Err(RuntimeError::CacheUnavailable { path, source })) = result {
        assert(path@.parts.len() == path.parts@.len());
        assert(path@.root == path.root);
    }
}

/// An optional path has the value of the path, where there is one.
pub proof fn lemma_optional_path_is_faithful(path: LayoutPath)
    ensures
        optional_path(Some(path)) == Some(path@),
        optional_path(None) is None,
{
}

} // verus!
