use kurogane::bootstrap::{
    execute_subprocesses, BootAction, BootReply, BootStage, Bootstrap, RuntimeBootstrap,
};
use kurogane::error::RuntimeError;
use kurogane::layout::Platform;
use kurogane::macos::{
    init_ns_app, is_subprocess, load_framework, terminate, FrameworkLoader, FrameworkReply,
    FrameworkStage, NsAppStep, SendEventState,
};
use kurogane::path::{LayoutPath, PathRoot};
use kurogane::runtime_spec::{RuntimeMode, RuntimeSpec};
use kurogane::sandbox::{apply_sandbox_flags, ChromiumFlag, ChromiumFlags};
use kurogane::settings::{
    build_settings, resolve_layout, LayoutReply, LayoutStage, RuntimeLayout,
};
use kurogane::window::WindowIdentity;

fn spec() -> RuntimeSpec {
    RuntimeSpec {
        mode: RuntimeMode::Views,
        start_url: "https://example.com".to_string(),
        has_asset_root: false,
        profile_id: None,
        has_cache_dir: false,
        persist_session_cookies: true,
        has_scheduler: false,
        delegates: 0,
        window_identity: WindowIdentity::default(),
    }
}

fn resolved(platform: Platform) -> RuntimeLayout {
    let mut resolver = resolve_layout(platform, None, false);
    assert!(resolver.step(LayoutReply::CacheDir(Ok(()))).is_none());
    assert!(resolver.step(LayoutReply::Detected(true)).is_none());
    assert!(resolver.step(LayoutReply::Validated(Ok(()))).is_none());
    let layout = resolver.step(LayoutReply::Canonical(true)).unwrap().unwrap();
    assert_eq!(resolver.stage, LayoutStage::Finished);
    layout
}

#[test]
fn layout_resolves_when_everything_is_there() {
    let layout = resolved(Platform::Linux);
    assert_eq!(layout.exe, LayoutPath::at(PathRoot::Executable));
    assert_eq!(layout.cef_root, LayoutPath::at(PathRoot::CefRoot));
    assert_eq!(layout.cache_dir, LayoutPath::at(PathRoot::ProfileDir));
    assert_eq!(layout.locales_dir, Some(LayoutPath::at(PathRoot::CefRoot).join("locales")));
    assert_eq!(resolved(Platform::MacOs).locales_dir, None);
}

#[test]
fn profile_name_has_a_default() {
    assert_eq!(resolve_layout(Platform::Linux, None, false).profile_name, "kurogane-app");
    let named = resolve_layout(Platform::Linux, Some("mine".to_string()), true);
    assert_eq!(named.profile_name, "mine");
    assert_eq!(named.cache_dir, PathRoot::HostCacheDir);
}

#[test]
fn layout_fails_at_the_first_obstacle() {
    let mut resolver = resolve_layout(Platform::Linux, None, true);
    let denied = std::io::Error::from(std::io::ErrorKind::PermissionDenied);
    match resolver.step(LayoutReply::CacheDir(Err(denied))) {
        Some(Err(RuntimeError::CacheUnavailable { path, source })) => {
            assert_eq!(path, LayoutPath::at(PathRoot::HostCacheDir));
            assert_eq!(source.kind(), std::io::ErrorKind::PermissionDenied);
        }
        other => panic!("{:?}", other),
    }

    let mut resolver = resolve_layout(Platform::Linux, None, false);
    assert!(resolver.step(LayoutReply::CacheDir(Ok(()))).is_none());
    assert!(matches!(
        resolver.step(LayoutReply::Detected(false)),
        Some(Err(RuntimeError::CefNotInstalled))
    ));

    let mut resolver = resolve_layout(Platform::Linux, None, false);
    assert!(resolver.step(LayoutReply::CacheDir(Ok(()))).is_none());
    assert!(resolver.step(LayoutReply::Detected(true)).is_none());
    match resolver.step(LayoutReply::Validated(Err("no libcef.so".to_string()))) {
        Some(Err(RuntimeError::InvalidCefInstallation(text))) => assert_eq!(text, "no libcef.so"),
        other => panic!("{:?}", other),
    }

    let mut resolver = resolve_layout(Platform::Linux, None, false);
    assert!(resolver.step(LayoutReply::CacheDir(Ok(()))).is_none());
    assert!(resolver.step(LayoutReply::Detected(true)).is_none());
    assert!(resolver.step(LayoutReply::Validated(Ok(()))).is_none());
    assert!(matches!(
        resolver.step(LayoutReply::Canonical(false)),
        Some(Err(RuntimeError::CefNotInstalled))
    ));
}

#[test]
fn settings_point_at_the_layout() {
    let layout = resolved(Platform::Windows);
    let settings = build_settings(Platform::Windows, &layout, true, false, true);
    assert_eq!(settings.browser_subprocess_path, Some(LayoutPath::at(PathRoot::Executable)));
    assert_eq!(settings.resources_dir_path, Some(LayoutPath::at(PathRoot::CefRoot)));
    assert_eq!(
        settings.locales_dir_path,
        Some(LayoutPath::at(PathRoot::CefRoot).join("locales"))
    );
    assert_eq!(settings.framework_dir_path, None);
    assert_eq!(settings.cache_path, Some(LayoutPath::at(PathRoot::ProfileDir)));
    assert_eq!(settings.root_cache_path, settings.cache_path);
    assert_eq!(settings.persist_session_cookies, 1);
    assert_eq!(settings.external_message_pump, 0);
    assert_eq!(settings.no_sandbox, 1);
}

#[test]
fn macos_settings_use_the_framework_and_the_helper() {
    let layout = resolved(Platform::MacOs);
    let settings = build_settings(Platform::MacOs, &layout, false, true, true);
    assert_eq!(settings.browser_subprocess_path, Some(LayoutPath::at(PathRoot::HelperApp)));
    assert_eq!(
        settings.framework_dir_path,
        Some(LayoutPath::at(PathRoot::CefRoot).join("Chromium Embedded Framework.framework"))
    );
    assert_eq!(settings.resources_dir_path, None);
    assert_eq!(settings.locales_dir_path, None);
    assert_eq!(settings.cache_path, Some(LayoutPath::at(PathRoot::ProfileDir)));
    assert_eq!(settings.persist_session_cookies, 0);
    assert_eq!(settings.external_message_pump, 1);
    assert_eq!(settings.no_sandbox, 1);

    let settings = build_settings(Platform::MacOs, &layout, false, true, false);
    assert_eq!(settings.browser_subprocess_path, Some(LayoutPath::at(PathRoot::Executable)));
}

/// Runs a startup in which nothing fails, and lists its stages.
fn stages(platform: Platform, mut boot: Bootstrap) -> Vec<BootStage> {
    let mut seen: Vec<BootStage> = Vec::new();
    loop {
        seen.push(boot.stage);
        let reply = match boot.stage {
            BootStage::InitNsApp => BootReply::NsApp(Ok(())),
            BootStage::ExecuteProcess => BootReply::ExitCode(-1),
            BootStage::ResolveLayout => BootReply::Layout(Ok(resolved(platform)), false),
            BootStage::Initialize => BootReply::Initialized(1),
            _ => BootReply::Done,
        };
        let stage = boot.stage;
        match boot.step(reply) {
            BootAction::Proceed => assert_ne!(boot.stage, stage),
            BootAction::InitializeWith(settings) => {
                assert_eq!(stage, BootStage::ResolveLayout);
                assert_eq!(settings.persist_session_cookies, 1);
            }
            BootAction::Ready => {
                assert_eq!(boot.stage, BootStage::Finished);
                return seen;
            }
            _ => panic!("the startup failed"),
        }
    }
}

#[test]
fn startup_goes_through_its_stages_in_order() {
    assert_eq!(
        stages(Platform::Linux, RuntimeBootstrap::start(Platform::Linux, &spec())),
        [
            BootStage::DeclareApiVersion,
            BootStage::ExecuteProcess,
            BootStage::ResolveLayout,
            BootStage::Initialize,
            BootStage::InstallCtrlcHandler
        ]
    );
    assert_eq!(
        stages(Platform::MacOs, RuntimeBootstrap::start(Platform::MacOs, &spec())),
        [
            BootStage::InitNsApp,
            BootStage::DeclareApiVersion,
            BootStage::SetServices,
            BootStage::ExecuteProcess,
            BootStage::ResolveLayout,
            BootStage::Initialize,
            BootStage::SetupAppDelegate,
            BootStage::InstallCtrlcHandler
        ]
    );
}

#[test]
fn embedded_startup_installs_no_interrupt_handler() {
    let seen = stages(Platform::Linux, RuntimeBootstrap::start_embedded(Platform::Linux, &spec()));
    assert_eq!(seen.last(), Some(&BootStage::Initialize));
    let seen = stages(Platform::MacOs, RuntimeBootstrap::start_embedded(Platform::MacOs, &spec()));
    assert_eq!(seen.last(), Some(&BootStage::SetupAppDelegate));
}

#[test]
fn subprocess_exits_with_its_code() {
    assert_eq!(execute_subprocesses(-1), None);
    assert_eq!(execute_subprocesses(0), Some(0));
    assert_eq!(execute_subprocesses(7), Some(7));

    let mut boot = RuntimeBootstrap::start(Platform::Linux, &spec());
    boot.step(BootReply::Done);
    assert!(matches!(boot.step(BootReply::ExitCode(3)), BootAction::ExitProcess(3)));
    assert_eq!(boot.stage, BootStage::Finished);
}

#[test]
fn startup_fails_with_the_error_of_its_stage() {
    let mut boot = RuntimeBootstrap::start(Platform::MacOs, &spec());
    assert!(matches!(
        boot.step(BootReply::NsApp(Err(RuntimeError::CefNotInstalled))),
        BootAction::Fail(RuntimeError::CefNotInstalled)
    ));

    let mut boot = RuntimeBootstrap::start(Platform::Linux, &spec());
    boot.step(BootReply::Done);
    boot.step(BootReply::ExitCode(-1));
    assert!(matches!(
        boot.step(BootReply::Layout(Err(RuntimeError::CefNotInstalled), false)),
        BootAction::Fail(RuntimeError::CefNotInstalled)
    ));

    for returned in [0, 2] {
        let mut boot = RuntimeBootstrap::start(Platform::Linux, &spec());
        boot.step(BootReply::Done);
        boot.step(BootReply::ExitCode(-1));
        boot.step(BootReply::Layout(Ok(resolved(Platform::Linux)), false));
        assert!(matches!(
            boot.step(BootReply::Initialized(returned)),
            BootAction::Fail(RuntimeError::CefInitializeFailed)
        ));
        assert_eq!(boot.stage, BootStage::Finished);
        assert!(matches!(boot.step(BootReply::Initialized(1)), BootAction::Proceed));
        assert_eq!(boot.stage, BootStage::Finished);
    }
}

#[test]
fn scheduler_means_an_external_message_pump() {
    let mut with_scheduler = spec();
    with_scheduler.has_scheduler = true;
    let mut boot = RuntimeBootstrap::start(Platform::Linux, &with_scheduler);
    boot.step(BootReply::Done);
    boot.step(BootReply::ExitCode(-1));
    match boot.step(BootReply::Layout(Ok(resolved(Platform::Linux)), false)) {
        BootAction::InitializeWith(settings) => assert_eq!(settings.external_message_pump, 1),
        _ => panic!("no settings"),
    }
}

fn args(list: &[&str]) -> Vec<String> {
    list.iter().map(|a| a.to_string()).collect()
}

#[test]
fn subprocesses_are_told_by_their_type_argument() {
    assert!(is_subprocess(&args(&["app", "--type=renderer"])));
    assert!(is_subprocess(&args(&["app", "--x", "--type="])));
    assert!(!is_subprocess(&args(&["app", "--type", "renderer"])));
    assert!(!is_subprocess(&args(&["app", "x--type=gpu-process"])));
    assert!(!is_subprocess(&args(&[])));
}

#[test]
fn subprocesses_get_the_library_alone() {
    let sub = args(&["app", "--type=utility"]);
    let main = args(&["app"]);
    assert_eq!(init_ns_app(Ok(()), &sub).unwrap(), NsAppStep::LibraryAlone);
    assert_eq!(init_ns_app(Ok(()), &main).unwrap(), NsAppStep::InstallApplication);
    assert!(matches!(
        init_ns_app(Err(RuntimeError::CefNotInstalled), &sub),
        Err(RuntimeError::CefNotInstalled)
    ));
}

/// Loads the framework, with these replies as far as they are asked for.
fn load(
    detected: bool,
    canonical: Option<&[u8]>,
    returned: i32,
) -> (Result<(), RuntimeError>, FrameworkLoader) {
    let mut loader = load_framework("Framework/Library");
    loop {
        let reply = match loader.stage {
            FrameworkStage::DetectCefRoot => {
                assert_eq!(loader.path(), None);
                FrameworkReply::Detected(detected)
            }
            FrameworkStage::CanonicalizeFramework => {
                let path = loader.path().unwrap();
                assert_eq!(path.root, PathRoot::DetectedCefRoot);
                assert_eq!(path.parts, ["Framework/Library"]);
                FrameworkReply::Canonical(canonical.map(|bytes| bytes.to_vec()))
            }
            FrameworkStage::LoadLibrary => {
                assert_eq!(loader.path(), None);
                assert_eq!(loader.library, canonical.unwrap());
                FrameworkReply::Loaded(returned)
            }
            FrameworkStage::Finished => panic!("went on after the end"),
        };
        if let Some(result) = loader.step(reply) {
            return (result, loader);
        }
    }
}

#[test]
fn framework_errors_say_what_went_wrong() {
    let (result, mut loader) = load(true, Some(b"/cef/lib"), 1);
    assert!(result.is_ok());
    assert_eq!(loader.stage, FrameworkStage::Finished);
    assert!(loader.step(FrameworkReply::Loaded(0)).is_none());

    let (result, _) = load(false, Some(b"/cef/lib"), 1);
    assert!(matches!(result, Err(RuntimeError::CefNotInstalled)));
    let (result, _) = load(true, None, 1);
    assert!(matches!(result, Err(RuntimeError::CefNotInstalled)));

    let (result, loader) = load(true, Some(b"/cef\0/lib"), 1);
    match result {
        Err(RuntimeError::InvalidCefInstallation(text)) => {
            assert_eq!(text, "invalid framework path")
        }
        other => panic!("{:?}", other),
    }
    assert!(loader.library.is_empty());

    match load(true, Some(b"/cef/lib"), 0).0 {
        Err(RuntimeError::InvalidCefInstallation(text)) => {
            assert_eq!(text, "failed to load Chromium Embedded Framework")
        }
        other => panic!("{:?}", other),
    }
}

#[test]
fn layout_stages_name_their_paths() {
    for (has_cache_dir, root) in [(true, PathRoot::HostCacheDir), (false, PathRoot::ProfileDir)] {
        let mut resolver = resolve_layout(Platform::Linux, None, has_cache_dir);
        assert_eq!(resolver.path(), Some(LayoutPath::at(root)));
        assert!(resolver.step(LayoutReply::CacheDir(Ok(()))).is_none());
        assert_eq!(resolver.path(), None);
        assert!(resolver.step(LayoutReply::Detected(true)).is_none());
        assert_eq!(resolver.path(), Some(LayoutPath::at(PathRoot::DetectedCefRoot)));
        assert!(resolver.step(LayoutReply::Validated(Ok(()))).is_none());
        assert_eq!(resolver.path(), Some(LayoutPath::at(PathRoot::DetectedCefRoot)));
        assert!(resolver.step(LayoutReply::Canonical(true)).unwrap().is_ok());
        assert_eq!(resolver.path(), None);
    }
}

#[test]
fn nested_events_leave_the_flag_as_it_was() {
    let mut state = SendEventState { handling: false };
    let outer = state.begin_event();
    assert!(!outer && state.handling);
    let inner = state.begin_event();
    assert!(inner && state.handling);
    state.end_event(inner);
    assert!(state.handling);
    state.end_event(outer);
    assert!(!state.handling);
}

#[test]
fn termination_closes_everything_once_there_is_something() {
    assert!(terminate(None).is_empty());
    let app = RuntimeBootstrap::instance(kurogane::browser_handle::ThreadToken(0));
    assert_eq!(terminate(Some(&app.handle)).len(), 1);
}

#[test]
fn sandbox_needs_no_switches() {
    let flag = ChromiumFlag { name: "disable-popup-blocking".to_string(), value: None };
    let mut flags = ChromiumFlags { flags: vec![flag] };
    let before = flags.clone();
    apply_sandbox_flags(&mut flags);
    assert_eq!(flags, before);
}
