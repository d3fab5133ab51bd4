use kurogane::browser_process::{
    on_already_running_app_relaunch, raise_window, ClientChoice, ContextAction, ContextReply,
    ContextStage, KuroganeBrowserProcessHandler, PumpRequest, RaiseOp,
};
use kurogane::browser_registry::{BrowserId, BrowserType};
use kurogane::runtime_spec::{RuntimeMode, RuntimeSpec};
use kurogane::services::RuntimeServices;
use kurogane::window::{
    asks_host, can_close, cef_image, on_popup_browser_view_created, popup_window_created,
    KuroganePopupDelegate, KuroganeWindowDelegate, PopupEnd, PopupView, WindowIdentity, WindowOp,
};
use kurogane::window_options::{Rect, ShowState};
use kurogane::window_registry::WindowId;

fn identity() -> WindowIdentity {
    WindowIdentity {
        class: Some("org.example.App".to_string()),
        title: Some("Example".to_string()),
        icon: Some(vec![0x89, 0x50]),
    }
}

fn delegate(show_state: ShowState, identity: WindowIdentity) -> KuroganeWindowDelegate {
    KuroganeWindowDelegate {
        window_id: WindowId(0),
        initial_bounds: Rect::default(),
        show_state,
        identity,
    }
}

fn spec(mode: RuntimeMode, delegates: usize, has_asset_root: bool) -> RuntimeSpec {
    RuntimeSpec {
        mode,
        start_url: "app://app/".to_string(),
        has_asset_root,
        profile_id: None,
        has_cache_dir: false,
        persist_session_cookies: false,
        has_scheduler: true,
        delegates,
        window_identity: identity(),
    }
}

#[test]
fn linux_names_come_from_the_class() {
    let (names, told) = delegate(ShowState::Normal, identity()).linux_window_properties(true);
    let names = names.unwrap();
    assert_eq!(told, 1);
    assert_eq!(names.wayland_app_id, "org.example.App");
    assert_eq!(names.wm_class_class, "org.example.App");
    assert_eq!(names.wm_class_name, "org.example.App");

    let (names, told) = delegate(ShowState::Normal, identity()).linux_window_properties(false);
    assert!(names.is_none() && told == 0);
    let plain = delegate(ShowState::Normal, WindowIdentity::default());
    let (names, told) = plain.linux_window_properties(true);
    assert!(names.is_none() && told == 0);
}

#[test]
fn new_window_is_registered_filled_and_shown() {
    let full = delegate(ShowState::Normal, identity());
    assert_eq!(
        full.on_window_created(true),
        [
            WindowOp::Register,
            WindowOp::AddChildView,
            WindowOp::SetTitle("Example".to_string()),
            WindowOp::SetIcons(vec![0x89, 0x50]),
            WindowOp::Show
        ]
    );
    assert!(full.on_window_created(false).is_empty());
    let bare = delegate(ShowState::Hidden, WindowIdentity::default());
    assert_eq!(bare.on_window_created(true), [WindowOp::Register, WindowOp::AddChildView]);
}

#[test]
fn icon_is_used_only_when_it_decodes() {
    assert!(cef_image(Some(1)));
    assert!(!cef_image(Some(0)));
    assert!(!cef_image(None));
}

#[test]
fn window_registers_and_goes() {
    let mut services = RuntimeServices::new();
    let mut window = delegate(ShowState::Normal, identity());
    window.window_id = services.window_registry.allocate_id();
    window.register(&mut services.window_registry);
    assert_eq!(services.window_registry.ids(), [window.window_id]);
    assert_eq!(services.window_registry.browser_for_window(window.window_id), None);
    window.on_window_destroyed(&mut services.window_registry);
    assert_eq!(services.window_registry.count(), 0);
}

#[test]
fn closing_window_asks_its_browser() {
    assert_eq!(can_close(true, Some(0)), 1);
    assert_eq!(can_close(false, Some(0)), 0);
    assert_eq!(can_close(false, Some(1)), 1);
    assert_eq!(can_close(false, None), 1);
}

#[test]
fn popup_belongs_to_the_browser_it_came_from() {
    let mut services = RuntimeServices::new();
    let opener = services.browser_registry.register(1, BrowserType::Main, None);
    let popup = Some(PopupView { browser: Some(2) });
    let delegate = on_popup_browser_view_created(&mut services, Some(1), popup, 0).unwrap();
    let id = delegate.browser_id.unwrap();
    assert_eq!(delegate.window_id, WindowId(0));
    assert_eq!(delegate.show_state, ShowState::Normal);
    assert_eq!(services.browser_registry.browser_parent(id), Some(opener));
    assert_eq!(services.browser_registry.browser_opener(id), Some(opener));
    assert_eq!(services.browser_registry.children_of(opener), [id]);
    assert_eq!(
        services.browser_registry.get(id).unwrap().metadata.browser_type,
        BrowserType::Popup
    );

    delegate.register(&mut services.window_registry);
    assert_eq!(services.window_registry.window_id_for_browser(id), Some(delegate.window_id));
    delegate.on_window_destroyed(&mut services.window_registry);
    assert_eq!(services.window_registry.count(), 0);
}

#[test]
fn devtools_popup_of_an_unknown_browser_has_no_parent() {
    let mut services = RuntimeServices::new();
    let popup = Some(PopupView { browser: Some(2) });
    let delegate = on_popup_browser_view_created(&mut services, Some(9), popup, 1).unwrap();
    let state = services.browser_registry.get(delegate.browser_id.unwrap()).unwrap();
    assert_eq!(state.metadata.browser_type, BrowserType::DevTools);
    assert_eq!(state.metadata.parent, None);
    assert_eq!(state.metadata.opener, None);
}

#[test]
fn popup_without_a_browser_still_gets_a_window() {
    let mut services = RuntimeServices::new();
    let popup = Some(PopupView { browser: None });
    let delegate = on_popup_browser_view_created(&mut services, None, popup, 0).unwrap();
    assert_eq!(delegate.browser_id, None);
    assert_eq!(services.browser_registry.count(), 0);
    assert!(services.window_registry.is_issued(delegate.window_id));

    assert_eq!(on_popup_browser_view_created(&mut services, None, None, 0), None);
    assert!(!services.window_registry.is_issued(WindowId(1)));
}

#[test]
fn popup_window_is_shown_then_registered() {
    let popup = KuroganePopupDelegate {
        window_id: WindowId(0),
        browser_id: Some(BrowserId(3)),
        show_state: ShowState::Normal,
    };
    assert_eq!(
        popup.on_window_created(true),
        [WindowOp::AddChildView, WindowOp::Show, WindowOp::Register]
    );
    assert!(popup.on_window_created(false).is_empty());
    let hidden = KuroganePopupDelegate { show_state: ShowState::Hidden, ..popup };
    assert_eq!(hidden.on_window_created(true), [WindowOp::AddChildView, WindowOp::Register]);
    assert_eq!(popup_window_created(true), PopupEnd { show: true, handled: 1 });
    assert_eq!(popup_window_created(false), PopupEnd { show: false, handled: 0 });
}

/// Runs the setup of the context and lists its stages. `clients` says which
/// delegates have a client.
fn setup(
    handler: &mut KuroganeBrowserProcessHandler,
    services: &mut RuntimeServices,
    clients: &[bool],
    view: bool,
    window: bool,
) -> (Vec<ContextStage>, Option<String>) {
    let mut seen: Vec<ContextStage> = Vec::new();
    let mut report: Option<String> = None;
    handler.on_context_initialized();
    while handler.state.stage != ContextStage::Finished {
        seen.push(handler.state.stage);
        let reply = match handler.state.stage {
            ContextStage::AskClient(i) => ContextReply::Client(clients[i]),
            ContextStage::CreateBrowserView => ContextReply::ViewCreated(view),
            ContextStage::CreateWindow => ContextReply::WindowCreated(window),
            _ => ContextReply::Done,
        };
        match handler.step(services, reply) {
            ContextAction::Proceed => {}
            ContextAction::CreateWindow(delegate) => {
                assert_eq!(delegate.initial_bounds, Rect { x: 0, y: 0, width: 0, height: 0 });
                assert_eq!(delegate.show_state, ShowState::Normal);
                assert_eq!(delegate.identity, identity());
                assert!(services.window_registry.is_issued(delegate.window_id));
            }
            ContextAction::Report(text) => report = Some(text),
        }
    }
    (seen, report)
}

#[test]
fn context_setup_opens_the_main_window() {
    let mut services = RuntimeServices::new();
    let mut handler = KuroganeBrowserProcessHandler::new(&spec(RuntimeMode::Views, 2, true));
    assert_eq!(handler.start_url, "app://app/");
    assert_eq!(handler.default_client(), None);
    let (seen, report) = setup(&mut handler, &mut services, &[false, true], true, true);
    assert_eq!(
        seen,
        [
            ContextStage::NotifyDelegate(0),
            ContextStage::NotifyDelegate(1),
            ContextStage::RegisterScheme,
            ContextStage::AskClient(0),
            ContextStage::AskClient(1),
            ContextStage::CreateBrowserView,
            ContextStage::CreateWindow
        ]
    );
    assert_eq!(report, None);
    assert_eq!(handler.default_client(), Some(ClientChoice::Delegate(1)));
}

#[test]
fn first_delegate_with_a_client_wins() {
    let mut services = RuntimeServices::new();
    let mut handler = KuroganeBrowserProcessHandler::new(&spec(RuntimeMode::Embedded, 3, false));
    setup(&mut handler, &mut services, &[false, true, true], true, true);
    assert_eq!(handler.default_client(), Some(ClientChoice::Delegate(1)));

    let mut handler = KuroganeBrowserProcessHandler::new(&spec(RuntimeMode::Embedded, 2, false));
    setup(&mut handler, &mut services, &[false, false], true, true);
    assert_eq!(handler.default_client(), Some(ClientChoice::Own));
}

#[test]
fn scheme_is_registered_once_and_only_with_assets() {
    let mut services = RuntimeServices::new();
    let mut handler = KuroganeBrowserProcessHandler::new(&spec(RuntimeMode::Embedded, 0, true));
    let (first, _) = setup(&mut handler, &mut services, &[], true, true);
    let (second, _) = setup(&mut handler, &mut services, &[], true, true);
    assert_eq!(first, [ContextStage::RegisterScheme]);
    assert!(second.is_empty());

    let mut handler = KuroganeBrowserProcessHandler::new(&spec(RuntimeMode::Embedded, 0, false));
    let (seen, _) = setup(&mut handler, &mut services, &[], true, true);
    assert!(seen.is_empty());
    assert_eq!(handler.default_client(), Some(ClientChoice::Own));
}

#[test]
fn embedded_setup_opens_no_window() {
    let mut services = RuntimeServices::new();
    let mut handler = KuroganeBrowserProcessHandler::new(&spec(RuntimeMode::Embedded, 1, true));
    let (seen, _) = setup(&mut handler, &mut services, &[true], true, true);
    assert!(!seen.contains(&ContextStage::CreateBrowserView));
    assert!(!seen.contains(&ContextStage::CreateWindow));
    assert!(!services.window_registry.is_issued(WindowId(0)));
}

#[test]
fn failures_are_reported_to_the_user() {
    let mut services = RuntimeServices::new();
    let mut handler = KuroganeBrowserProcessHandler::new(&spec(RuntimeMode::Views, 0, false));
    let (_, report) = setup(&mut handler, &mut services, &[], false, true);
    assert_eq!(
        report.unwrap(),
        "kurogane: browser_view_create failed; no window will appear"
    );
    assert!(!services.window_registry.is_issued(WindowId(0)));
    let (_, report) = setup(&mut handler, &mut services, &[], true, false);
    assert_eq!(
        report.unwrap(),
        "kurogane: window_create_top_level failed; no window will appear"
    );
    assert!(services.window_registry.is_issued(WindowId(0)));
}

#[test]
fn pump_work_is_scheduled_at_once_or_later() {
    let handler = KuroganeBrowserProcessHandler::new(&spec(RuntimeMode::Views, 0, false));
    assert_eq!(handler.on_schedule_message_pump_work(0), Some(PumpRequest::Now));
    assert_eq!(handler.on_schedule_message_pump_work(-3), Some(PumpRequest::Now));
    assert_eq!(handler.on_schedule_message_pump_work(16), Some(PumpRequest::After(16)));

    let mut unscheduled = spec(RuntimeMode::Views, 0, false);
    unscheduled.has_scheduler = false;
    let handler = KuroganeBrowserProcessHandler::new(&unscheduled);
    assert_eq!(handler.on_schedule_message_pump_work(16), None);
}

#[test]
fn relaunch_raises_every_window() {
    let mut services = RuntimeServices::new();
    let a = services.window_registry.allocate_id();
    let b = services.window_registry.allocate_id();
    services.window_registry.insert(a, None);
    services.window_registry.insert(b, None);
    let (windows, told) = on_already_running_app_relaunch(&services);
    assert_eq!(windows, [a, b]);
    assert_eq!(told, 1);
    assert_eq!(raise_window(1), [RaiseOp::Restore, RaiseOp::Show, RaiseOp::Activate]);
    assert_eq!(raise_window(0), [RaiseOp::Show, RaiseOp::Activate]);
}

#[test]
fn windows_come_up_as_asked_and_allow_everything() {
    let bounds = Rect { x: 1, y: 2, width: 3, height: 4 };
    let mut window = delegate(ShowState::Maximized, identity());
    window.initial_bounds = bounds;
    assert_eq!(window.initial_bounds(), bounds);
    assert_eq!(window.initial_show_state(), ShowState::Maximized);
    assert_eq!(window.with_standard_window_buttons(), 1);
    assert_eq!(window.can_resize(), 1);
    assert_eq!(window.can_maximize(), 1);
    assert_eq!(window.can_minimize(), 1);

    let popup = KuroganePopupDelegate {
        window_id: WindowId(7),
        browser_id: None,
        show_state: ShowState::Hidden,
    };
    assert_eq!(popup.initial_show_state(), ShowState::Hidden);
    assert_eq!(popup.with_standard_window_buttons(), 1);
    assert_eq!(popup.can_resize(), 1);
    assert_eq!(popup.can_maximize(), 1);
    assert_eq!(popup.can_minimize(), 1);
}

#[test]
fn closing_browser_is_not_asked_again() {
    assert!(asks_host(false));
    assert!(!asks_host(true));
    assert_eq!(can_close(true, None), 1);
}

#[test]
fn local_assets_are_served_below_app_app() {
    let mut services = RuntimeServices::new();
    let mut handler = KuroganeBrowserProcessHandler::new(&RuntimeSpec {
        mode: RuntimeMode::Embedded,
        start_url: "app://app/".to_string(),
        has_asset_root: true,
        profile_id: None,
        has_cache_dir: false,
        persist_session_cookies: true,
        has_scheduler: false,
        delegates: 0,
        window_identity: WindowIdentity::default(),
    });
    assert_eq!(handler.scheme(), None);
    handler.on_context_initialized();
    let name = handler.scheme().unwrap();
    assert_eq!(name.scheme, "app");
    assert_eq!(name.domain, "app");
    handler.step(&mut services, ContextReply::Done);
    assert_eq!(handler.scheme(), None);
}
