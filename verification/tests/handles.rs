use kurogane::app_handle::CefCall;
use kurogane::app_instance::{window_created, AppInstance, RuntimeStyle, WaitStep};
use kurogane::bootstrap::RuntimeBootstrap;
use kurogane::browser_handle::{BrowserOp, CallTarget, ThreadToken};
use kurogane::browser_registry::{BrowserId, BrowserType};
use kurogane::error::RuntimeError;
use kurogane::interrupt::{
    close_all_browsers_and_windows, install_ctrlc_handler, CloseStep, InterruptAction,
};
use kurogane::window::WindowIdentity;
use kurogane::window_options::{BrowserBounds, Rect, ShowState, WindowOptions, WindowState};
use kurogane::window_registry::WindowId;

const UI: ThreadToken = ThreadToken(1);

fn app() -> AppInstance {
    RuntimeBootstrap::instance(UI)
}

fn options(show_state: WindowState) -> WindowOptions {
    WindowOptions {
        url: "https://github.com".to_string(),
        bounds: BrowserBounds { x: 100, y: 100, width: 800, height: 600 },
        show_state,
    }
}

#[test]
fn new_application_is_empty() {
    let app = app();
    assert_eq!(app.browser_count(), 0);
    assert_eq!(app.window_count(), 0);
    assert!(app.window_ids().is_empty());
    assert!(app.browsers().is_empty());
    assert!(app.windows().is_empty());
    assert!(!app.should_shutdown());
    assert_eq!(app.pump(), CefCall::DoMessageLoopWork);
}

#[test]
fn cef_is_shut_down_once() {
    let mut app = app();
    assert_eq!(app.shutdown(), Some(CefCall::Shutdown));
    app.shutdown_complete();
    assert!(app.should_shutdown());
    assert_eq!(app.shutdown(), None);
    assert!(matches!(app.run(), Ok(None)));
    assert_eq!(app.shutdown(), None);
}

#[test]
fn run_shuts_cef_down_unless_it_is_down_already() {
    let mut app = app();
    assert!(matches!(app.run(), Ok(Some(CefCall::Shutdown))));
    assert_eq!(app.shutdown(), None);
}

#[test]
fn handle_shutdown_quits_the_loop_and_is_remembered() {
    let mut app = app();
    assert_eq!(app.handle.shutdown(), CefCall::QuitMessageLoop);
    assert!(app.handle().should_shutdown());
    assert!(app.should_shutdown());
    assert_eq!(app.shutdown(), Some(CefCall::Shutdown));
}

#[test]
fn broadcasts_carry_event_and_bytes() {
    let app = app();
    let message = app.broadcast("tick", &[1, 2, 255]);
    assert_eq!(message.event, "tick");
    assert_eq!(message.data, [1, 2, 255]);
}

#[test]
fn json_broadcasts_carry_the_text() {
    let app = app();
    let json = serde_json::to_string(&vec!["ä", "b"]).ok();
    let message = app.broadcast_json("list", json).unwrap();
    assert_eq!(message.event, "list");
    assert_eq!(message.data, "[\"ä\",\"b\"]".as_bytes());
    assert!(app.broadcast_json("list", None).is_none());
}

#[test]
fn window_is_created_in_three_steps() {
    let mut app = app();
    let window = app.create_window(options(WindowState::Maximized));
    assert_eq!(window.options.url, "https://github.com");
    let delegate = window.view_created(&mut app, true).unwrap();
    assert_eq!(delegate.window_id, WindowId(0));
    assert_eq!(delegate.initial_bounds, Rect { x: 100, y: 100, width: 800, height: 600 });
    assert_eq!(delegate.show_state, ShowState::Maximized);
    assert_eq!(delegate.identity, WindowIdentity::default());
    assert_eq!(app.window_count(), 0);
    assert_eq!(window_created(delegate.window_id, true).unwrap(), WindowId(0));
}

#[test]
fn failed_view_uses_up_no_window_id() {
    let mut app = app();
    let window = app.create_window(options(WindowState::Normal));
    let error = window.view_created(&mut app, false).unwrap_err();
    assert!(matches!(error, RuntimeError::BrowserCreationFailed));
    let window = app.create_window(options(WindowState::Normal));
    assert_eq!(window.view_created(&mut app, true).unwrap().window_id, WindowId(0));
}

#[test]
fn windows_never_share_an_id() {
    let mut app = app();
    let window = app.create_window(options(WindowState::Normal));
    let first = window.view_created(&mut app, true).unwrap().window_id;
    let first = window_created(first, true).unwrap();

    let window = app.create_window(options(WindowState::Normal));
    assert!(window.view_created(&mut app, false).is_err());
    let window = app.create_window(options(WindowState::Normal));
    let lost = window.view_created(&mut app, true).unwrap().window_id;
    assert!(window_created(lost, false).is_err());

    let window = app.create_window(options(WindowState::Normal));
    let second = window.view_created(&mut app, true).unwrap().window_id;
    let second = window_created(second, true).unwrap();
    assert_eq!(first, WindowId(0));
    assert_eq!(second, WindowId(2));
}

#[test]
fn failed_window_is_an_error() {
    let error = window_created(WindowId(3), false).unwrap_err();
    assert!(matches!(error, RuntimeError::WindowCreationFailed));
}

#[test]
fn window_states_survive_the_way_to_cef_and_back() {
    for state in
        [WindowState::Normal, WindowState::Minimized, WindowState::Maximized, WindowState::Hidden]
    {
        assert_eq!(WindowState::from(ShowState::from(state)), state);
    }
    assert_eq!(ShowState::from(WindowState::Hidden), ShowState::Hidden);
    assert_eq!(WindowState::from(ShowState::Fullscreen), WindowState::Normal);
    assert_eq!(WindowState::from(ShowState::NumValues), WindowState::Normal);
    assert_eq!(WindowState::default(), WindowState::Normal);
}

#[test]
fn waiting_ends_with_the_browser_or_the_timeout() {
    let mut app = app();
    let window = app.handle.services.window_registry.allocate_id();
    assert_eq!(app.wait_for_browser(window, 0, 1_000_000), WaitStep::PumpAndSleep(5));
    assert_eq!(app.wait_for_browser(window, 999_999, 1_000_000), WaitStep::PumpAndSleep(5));
    assert_eq!(app.wait_for_browser(window, 1_000_000, 1_000_000), WaitStep::Return(None));
    assert_eq!(app.wait_for_browser(window, 0, 0), WaitStep::Return(None));

    app.handle.services.window_registry.insert(window, None);
    let browser = app.handle.services.browser_registry.register(7, BrowserType::Main, None);
    app.handle.services.window_registry.link_browser(window, browser);
    match app.wait_for_browser(window, 5_000_000, 1_000_000) {
        WaitStep::Return(Some(handle)) => {
            assert_eq!(handle.id(), browser);
            assert!(handle.on_ui_thread(UI));
            assert!(!handle.on_ui_thread(ThreadToken(2)));
        }
        other => panic!("{:?}", other),
    }

    app.handle.services.browser_closed(browser);
    assert_eq!(app.browser_for_window(window), Some(browser));
    assert_eq!(app.wait_for_browser(window, 0, 1_000_000), WaitStep::PumpAndSleep(5));
    assert_eq!(app.wait_for_browser(window, 999_999, 1_000_000), WaitStep::PumpAndSleep(5));
    assert_eq!(app.wait_for_browser(window, 1_000_000, 1_000_000), WaitStep::Return(None));
}

#[test]
fn child_browser_stands_where_it_is_put() {
    let mut app = app();
    let bounds = BrowserBounds { x: -5, y: 6, width: 7, height: 8 };
    let child = app.create_child_browser(bounds, "app://app/");
    assert_eq!(child.bounds, Rect { x: -5, y: 6, width: 7, height: 8 });
    assert_eq!(child.url, "app://app/");
    assert_eq!(child.runtime_style, RuntimeStyle::Alloy);
    assert!(!child.own_request_context);
    assert!(app.create_child_browser_with_request_context(bounds, "x", true).own_request_context);
    assert!(!app.create_child_browser_with_request_context(bounds, "x", false).own_request_context);

    assert_eq!(app.child_browser_created(None), None);
    assert!(!app.is_registered(42));
    let id = app.handle.services.browser_registry.register(42, BrowserType::Main, None);
    assert!(app.is_registered(42));
    assert_eq!(app.child_browser_created(Some(42)).unwrap().id(), id);
}

#[test]
fn queries_see_the_registries() {
    let mut app = app();
    let parent = app.handle.services.browser_registry.register(1, BrowserType::Main, None);
    let child = app.handle.services.browser_registry.register(2, BrowserType::Popup, Some(parent));
    app.handle.services.browser_registry.set_opener(child, Some(parent));
    let window = app.handle.services.window_registry.allocate_id();
    app.handle.services.window_registry.insert(window, Some(child));

    assert_eq!(app.browser_count(), 2);
    assert_eq!(app.window_count(), 1);
    assert_eq!(app.window_ids(), [window]);
    assert_eq!(app.close_all_windows(), [window]);
    assert_eq!(app.find_window_by_browser(child), Some(window));
    assert_eq!(app.find_window_by_browser(parent), None);
    assert_eq!(app.browser_for_window(window), Some(child));
    assert_eq!(app.browser_parent(child), Some(parent));
    assert_eq!(app.browser_opener(child), Some(parent));
    assert_eq!(app.children_of(parent), [child]);
    let browsers = app.browsers();
    assert_eq!(browsers[0].0, parent);
    assert_eq!(browsers[1].0, child);
    assert_eq!(browsers[1].1.browser_type, BrowserType::Popup);
    assert_eq!(app.windows()[0].0, window);
    assert_eq!(app.windows()[0].1.browser, Some(child));
    assert_eq!(app.get_browser_handle(child).unwrap().id(), child);
    assert_eq!(app.get_browser_handle(BrowserId(9)), None);
}

#[test]
fn commands_go_to_the_live_browser() {
    let mut app = app();
    let id = app.handle.services.browser_registry.register(77, BrowserType::Main, None);
    let handle = app.get_browser_handle(id).unwrap();
    let registry = &app.handle.services.browser_registry;

    assert_eq!(handle.cef_id(registry), Some(77));
    assert_eq!(handle.close(registry, true).unwrap().op, BrowserOp::CloseBrowser(1));
    assert_eq!(handle.close(registry, false).unwrap().op, BrowserOp::CloseBrowser(0));
    assert_eq!(handle.close(registry, false).unwrap().cef_id, 77);
    assert_eq!(handle.notify_resized(registry).unwrap().op, BrowserOp::WasResized);
    assert_eq!(
        handle.notify_move_or_resize_started(registry).unwrap().op,
        BrowserOp::NotifyMoveOrResizeStarted
    );
    assert_eq!(
        handle.navigate(registry, "https://xkcd.com").unwrap().op,
        BrowserOp::LoadUrl("https://xkcd.com".to_string())
    );
    assert_eq!(handle.reload(registry).unwrap().op, BrowserOp::Reload);
    assert_eq!(handle.reload_ignore_cache(registry).unwrap().op, BrowserOp::ReloadIgnoreCache);
    assert_eq!(handle.go_back(registry).unwrap().op, BrowserOp::GoBack);
    assert_eq!(handle.go_forward(registry).unwrap().op, BrowserOp::GoForward);
    assert_eq!(handle.show_devtools(registry).unwrap().op, BrowserOp::ShowDevTools);
    assert_eq!(handle.close_devtools(registry).unwrap().op, BrowserOp::CloseDevTools);
    assert_eq!(
        handle.execute_javascript(registry, "1 + 1", "app://x.js", 12).unwrap().op,
        BrowserOp::ExecuteJavaScript {
            code: "1 + 1".to_string(),
            script_url: "app://x.js".to_string(),
            start_line: 12
        }
    );
}

#[test]
fn questions_are_answered_by_the_live_browser() {
    let mut app = app();
    let id = app.handle.services.browser_registry.register(77, BrowserType::Main, None);
    let handle = app.get_browser_handle(id).unwrap();
    let registry = &app.handle.services.browser_registry;

    assert!(handle.can_go_back(registry, 1));
    assert!(!handle.can_go_back(registry, 0));
    assert!(handle.can_go_forward(registry, -1));
    assert!(!handle.can_go_forward(registry, 0));
    assert!(handle.is_loading(registry, 2));
    assert!(!handle.is_loading(registry, 0));
    assert!(handle.has_devtools(registry, Some(1)));
    assert!(!handle.has_devtools(registry, Some(0)));
    assert!(!handle.has_devtools(registry, None));
    assert_eq!(handle.url(registry, Some("https://a".to_string())), "https://a");
    assert_eq!(handle.url(registry, None), "");
}

#[test]
fn stale_handle_does_nothing() {
    let mut app = app();
    let id = app.handle.services.browser_registry.register(77, BrowserType::Main, None);
    let handle = app.get_browser_handle(id).unwrap();
    app.handle.services.browser_closed(id);
    let registry = &app.handle.services.browser_registry;

    assert_eq!(app.get_browser_handle(id), None);
    assert_eq!(handle.id(), id);
    assert_eq!(handle.cef_id(registry), None);
    assert_eq!(handle.close(registry, true), None);
    assert_eq!(handle.navigate(registry, "x"), None);
    assert_eq!(handle.reload(registry), None);
    assert!(!handle.can_go_back(registry, 1));
    assert!(!handle.can_go_forward(registry, 1));
    assert!(!handle.is_loading(registry, 1));
    assert!(!handle.has_devtools(registry, Some(1)));
    assert_eq!(handle.url(registry, Some("https://a".to_string())), "");
}

#[test]
fn closing_everything_starts_with_the_browsers() {
    let mut app = app();
    app.handle.services.browser_registry.register(1, BrowserType::Main, None);
    app.handle.services.browser_registry.register(2, BrowserType::Popup, None);

    let calls = app.close_all_browsers(true);
    assert_eq!(calls.len(), 2);
    assert_eq!(calls[1].cef_id, 2);
    assert_eq!(calls[1].op, BrowserOp::CloseBrowser(1));

    let steps = close_all_browsers_and_windows(&app.handle);
    assert_eq!(steps.len(), 3);
    match (&steps[0], &steps[1], &steps[2]) {
        (
            CloseStep::CloseBrowser(first),
            CloseStep::CloseBrowser(second),
            CloseStep::CloseRemainingWindows,
        ) => {
            assert_eq!(first.cef_id, 1);
            assert_eq!(first.op, BrowserOp::CloseBrowser(0));
            assert_eq!(second.cef_id, 2);
        }
        other => panic!("{:?}", other),
    }
}

#[test]
fn only_the_first_interrupt_counts() {
    let mut handler = install_ctrlc_handler();
    assert_eq!(handler.on_interrupt(), InterruptAction::ScheduleCloseAll);
    assert_eq!(handler.on_interrupt(), InterruptAction::Ignore);
    assert_eq!(handler.on_interrupt(), InterruptAction::Ignore);
}

#[test]
fn calls_go_to_the_host_the_frame_or_the_browser() {
    let host = [
        BrowserOp::CloseBrowser(1),
        BrowserOp::WasResized,
        BrowserOp::NotifyMoveOrResizeStarted,
        BrowserOp::ShowDevTools,
        BrowserOp::CloseDevTools,
    ];
    for op in host {
        assert_eq!(op.site(true, false), Some(CallTarget::Host));
        assert_eq!(op.site(false, true), None);
    }
    let frame = [
        BrowserOp::LoadUrl("https://example.com".to_string()),
        BrowserOp::ExecuteJavaScript {
            code: "1".to_string(),
            script_url: "s".to_string(),
            start_line: 0,
        },
    ];
    for op in frame {
        assert_eq!(op.site(false, true), Some(CallTarget::MainFrame));
        assert_eq!(op.site(true, false), None);
    }
    let browser =
        [BrowserOp::Reload, BrowserOp::ReloadIgnoreCache, BrowserOp::GoBack, BrowserOp::GoForward];
    for op in browser {
        assert_eq!(op.site(false, false), Some(CallTarget::Browser));
    }
}
