use kurogane::browser_registry::{BrowserId, BrowserRegistry, BrowserType};
use kurogane::services::{RuntimeServices, ShutdownSignal};
use kurogane::window_registry::{WindowId, WindowRegistry};

#[test]
fn browser_ids_are_fresh() {
    let mut registry = BrowserRegistry::new();
    let first = registry.register(10, BrowserType::Main, None);
    let second = registry.register(20, BrowserType::Main, None);
    assert_eq!(first, BrowserId(0));
    assert_eq!(second, BrowserId(1));

    registry.unregister(second);
    assert_eq!(registry.register(30, BrowserType::Main, None), BrowserId(2));
    assert_eq!(registry.count(), 2);
    assert!(registry.can_register());
}

#[test]
fn browsers_are_found_by_id_and_by_cef_id() {
    let mut registry = BrowserRegistry::new();
    let id = registry.register(10, BrowserType::DevTools, None);
    let state = registry.get(id).unwrap();
    assert_eq!(state.cef_id, 10);
    assert_eq!(state.metadata.browser_type, BrowserType::DevTools);
    assert_eq!(registry.find_id_by_cef_id(10), Some(id));
    assert_eq!(registry.find_id_by_cef_id(11), None);
    assert!(registry.get(BrowserId(7)).is_none());
}

#[test]
fn first_browser_with_a_cef_id_is_found() {
    let mut registry = BrowserRegistry::new();
    let first = registry.register(10, BrowserType::Main, None);
    registry.register(10, BrowserType::Popup, None);
    assert_eq!(registry.find_id_by_cef_id(10), Some(first));
}

#[test]
fn children_and_parents_agree() {
    let mut registry = BrowserRegistry::new();
    let parent = registry.register(1, BrowserType::Main, None);
    let a = registry.register(2, BrowserType::Popup, Some(parent));
    let other = registry.register(3, BrowserType::Main, None);
    let b = registry.register(4, BrowserType::Popup, Some(parent));

    assert_eq!(registry.children_of(parent), [a, b]);
    assert_eq!(registry.children_of(other), []);
    assert_eq!(registry.browser_parent(a), Some(parent));
    assert_eq!(registry.browser_parent(parent), None);
    assert_eq!(registry.browser_parent(BrowserId(99)), None);
}

#[test]
fn opener_is_recorded_for_live_browsers_only() {
    let mut registry = BrowserRegistry::new();
    let a = registry.register(1, BrowserType::Main, None);
    let b = registry.register(2, BrowserType::Popup, None);
    assert_eq!(registry.browser_opener(b), None);
    registry.set_opener(b, Some(a));
    assert_eq!(registry.browser_opener(b), Some(a));
    assert_eq!(registry.browser_opener(a), None);
    registry.set_opener(BrowserId(99), Some(a));
    assert_eq!(registry.browser_opener(BrowserId(99)), None);
    registry.set_opener(b, None);
    assert_eq!(registry.browser_opener(b), None);
}

#[test]
fn closed_browser_is_gone_and_others_stay() {
    let mut registry = BrowserRegistry::new();
    let a = registry.register(1, BrowserType::Main, None);
    let b = registry.register(2, BrowserType::Main, None);
    registry.unregister(a);
    assert!(registry.get(a).is_none());
    assert_eq!(registry.get(b).unwrap().cef_id, 2);
    registry.unregister(a);
    assert_eq!(registry.count(), 1);
}

#[test]
fn window_ids_are_given_out_once() {
    let mut registry = WindowRegistry::new();
    assert!(registry.can_allocate());
    let first = registry.allocate_id();
    let second = registry.allocate_id();
    assert_eq!((first, second), (WindowId(0), WindowId(1)));
    assert!(registry.is_issued(second));
    assert!(!registry.is_issued(WindowId(2)));
    assert_eq!(registry.count(), 0);
}

#[test]
fn windows_open_link_and_go() {
    let mut registry = WindowRegistry::new();
    let window = registry.allocate_id();
    let other = registry.allocate_id();
    let browser = BrowserId(5);

    registry.insert(window, None);
    registry.insert(other, Some(BrowserId(6)));
    assert_eq!(registry.ids(), [window, other]);
    assert_eq!(registry.browser_for_window(window), None);
    assert_eq!(registry.window_id_for_browser(browser), None);

    registry.link_browser(window, browser);
    assert_eq!(registry.browser_for_window(window), Some(browser));
    assert_eq!(registry.window_id_for_browser(browser), Some(window));
    assert_eq!(registry.browser_for_window(other), Some(BrowserId(6)));

    registry.unregister(window);
    assert_eq!(registry.browser_for_window(window), None);
    assert_eq!(registry.window_id_for_browser(browser), None);
    assert_eq!(registry.ids(), [other]);

    registry.unregister(window);
    registry.link_browser(window, browser);
    assert_eq!(registry.count(), 1);
}

#[test]
fn reopening_a_window_overwrites_it() {
    let mut registry = WindowRegistry::new();
    let window = registry.allocate_id();
    let other = registry.allocate_id();
    registry.insert(window, None);
    registry.insert(other, None);
    registry.insert(window, Some(BrowserId(1)));
    assert_eq!(registry.ids(), [window, other]);
    assert_eq!(registry.browser_for_window(window), Some(BrowserId(1)));
}

#[test]
fn last_browser_to_close_ends_the_application() {
    let mut services = RuntimeServices::new();
    let a = services.browser_registry.register(1, BrowserType::Main, None);
    let b = services.browser_registry.register(2, BrowserType::Main, None);
    services.browser_closed(b);
    assert!(!services.shutdown_signal.is_shutdown_requested());
    services.browser_closed(a);
    assert!(services.shutdown_signal.is_shutdown_requested());
    assert_eq!(services.browser_registry.count(), 0);

    services.browser_registry.register(3, BrowserType::Main, None);
    services.browser_closed(BrowserId(99));
    assert!(services.shutdown_signal.is_shutdown_requested());
}

#[test]
fn shutdown_signal_latches() {
    let mut signal = ShutdownSignal::new();
    assert!(!signal.is_shutdown_requested());
    signal.request_shutdown();
    signal.request_shutdown();
    assert!(signal.is_shutdown_requested());
}

#[test]
fn requested_shutdown_is_seen_whatever_opens_and_closes() {
    let mut services = RuntimeServices::new();
    let a = services.browser_registry.register(1, BrowserType::Main, None);
    services.shutdown_signal.request_shutdown();
    services.browser_registry.register(2, BrowserType::Main, None);
    services.browser_closed(a);
    assert_eq!(services.browser_registry.count(), 1);
    assert!(services.shutdown_signal.is_shutdown_requested());
}

#[test]
fn announced_browser_is_registered_once_and_linked() {
    let mut services = RuntimeServices::new();
    let window = services.window_registry.allocate_id();
    services.window_registry.insert(window, None);
    let id = services.browser_created(7, Some(window));
    assert_eq!(services.window_registry.browser_for_window(window), Some(id));
    let state = services.browser_registry.get(id).unwrap();
    assert_eq!(state.cef_id, 7);
    assert_eq!(state.metadata.browser_type, BrowserType::Main);
    assert_eq!(state.metadata.parent, None);
    assert_eq!(state.metadata.opener, None);

    assert_eq!(services.browser_created(7, None), id);
    assert_eq!(services.browser_registry.count(), 1);

    let popup = services.browser_registry.register(8, BrowserType::Popup, Some(id));
    assert_eq!(services.browser_created(8, None), popup);
    let state = services.browser_registry.get(popup).unwrap();
    assert_eq!(state.metadata.browser_type, BrowserType::Popup);
    assert_eq!(services.window_registry.browser_for_window(window), Some(id));
}
