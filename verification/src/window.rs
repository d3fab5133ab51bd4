//! Native windows: what they look like, what happens when CEF creates and
//! destroys them, and how popups get theirs.

use crate::browser_registry::{
    id_of_cef, lemma_first_cef_id_is_found, BrowserId, BrowserMetadata, BrowserState, BrowserType,
};
use crate::services::{life_next, LifeEvent, RuntimeServices};
use crate::window_options::{Rect, ShowState};
use crate::window_registry::{gives_out, with_window, without_window, WindowId, WindowRegistry};
use vstd::prelude::*;

verus! {

/// What the window manager sees of a window.
#[derive(Debug, PartialEq, Eq)]
pub struct WindowIdentity {
    /// WM_CLASS under X11, app_id under Wayland. Linux only; other platforms ignore it.
    pub class: Option<String>,
    /// The native title. None leaves the window untitled.
    pub title: Option<String>,
    /// The native icon, an encoded PNG. None leaves the platform's default.
    pub icon: Option<Vec<u8>>,
}

/// The mathematical value of a [`WindowIdentity`].
#[verifier::ext_equal]
pub struct IdentityView {
    pub class: Option<Seq<char>>,
    pub title: Option<Seq<char>>,
    pub icon: Option<Seq<u8>>,
}

/// The value of an optional text.
pub open spec fn optional_text(text: Option<String>) -> Option<Seq<char>> {
    match text {
        Some(t) => Some(t@),
        None => None,
    }
}

/// The value of an optional byte string.
pub open spec fn optional_bytes(bytes: Option<Vec<u8>>) -> Option<Seq<u8>> {
    match bytes {
        Some(b) => Some(b@),
        None => None,
    }
}

impl View for WindowIdentity {
    type V = IdentityView;

    open spec fn view(&self) -> IdentityView {
        IdentityView {
            class: optional_text(self.class),
            title: optional_text(self.title),
            icon: optional_bytes(self.icon),
        }
    }
}

impl Default for WindowIdentity {
    fn default() -> (identity: WindowIdentity)
        ensures
            identity@ == (IdentityView { class: None, title: None, icon: None }),
            identity.class is None,
            identity.title is None,
            identity.icon is None,
    {
        WindowIdentity { class: None, title: None, icon: None }
    }
}

/// A copy of `bytes`.
pub(crate) fn copy_bytes(bytes: &[u8]) -> (copy: Vec<u8>)
    ensures
        copy@ == bytes@,
{
    let mut copy: Vec<u8> = Vec::new();
    let mut i: usize = 0;
    while i < bytes.len()
        invariant
            i <= bytes@.len(),
            copy@ == bytes@.take(i as int),
        decreases bytes@.len() - i,
    {
        copy.push(bytes[i]);
        assert(bytes@.take(i + 1) =~= bytes@.take(i as int).push(bytes@[i as int]));
        i += 1;
    }
    assert(bytes@.take(i as int) =~= bytes@);
    copy
}

impl Clone for WindowIdentity {
    fn clone(&self) -> (identity: WindowIdentity)
        ensures
            identity@ == self@,
            identity.class is Some <==> self.class is Some,
            self.class matches Some(text) ==> identity.class->0@ == text@,
            identity.title is Some <==> self.title is Some,
            self.title matches Some(text) ==> identity.title->0@ == text@,
            identity.icon is Some <==> self.icon is Some,
            self.icon matches Some(png) ==> identity.icon->0@ == png@,
    {
        let class = match &self.class {
            Some(text) => Some(text.clone()),
            None => None,
        };
        let title = match &self.title {
            Some(text) => Some(text.clone()),
            None => None,
        };
        let icon = match &self.icon {
            Some(png) => Some(copy_bytes(png.as_slice())),
            None => None,
        };
        WindowIdentity { class, title, icon }
    }
}

/// Whether an icon can be drawn. `added` is what adding the PNG to a CEF image
/// returned; there is none when CEF made no image.
pub fn cef_image(added: Option<i32>) -> (usable: bool)
    ensures
        usable == (added == Some(1i32)),
{
    match added {
        Some(result) => result == 1,
        None => false,
    }
}

/// The names that a window gives to the window manager on Linux.
#[derive(Debug, PartialEq, Eq)]
pub struct LinuxWindowProperties {
    pub wayland_app_id: String,
    pub wm_class_class: String,
    pub wm_class_name: String,
}

/// Something to be done to a window that CEF has just created.
#[derive(Debug, PartialEq, Eq)]
pub enum WindowOp {
    /// Record it in the registry.
    Register,
    /// Put the browser view into it.
    AddChildView,
    SetTitle(String),
    /// Decode the PNG once and, if that succeeds, set it as the window's icon
    /// and as the application's.
    SetIcons(Vec<u8>),
    Show,
}

/// The mathematical value of a [`WindowOp`].
pub enum WindowOpView {
    Register,
    AddChildView,
    SetTitle(Seq<char>),
    SetIcons(Seq<u8>),
    Show,
}

impl View for WindowOp {
    type V = WindowOpView;

    open spec fn view(&self) -> WindowOpView {
        match self {
            WindowOp::Register => WindowOpView::Register,
            WindowOp::AddChildView => WindowOpView::AddChildView,
            WindowOp::SetTitle(title) => WindowOpView::SetTitle(title@),
            WindowOp::SetIcons(png) => WindowOpView::SetIcons(png@),
            WindowOp::Show => WindowOpView::Show,
        }
    }
}

/// The values of a list of operations.
pub open spec fn ops_view(ops: Seq<WindowOp>) -> Seq<WindowOpView> {
    Seq::new(ops.len(), |i: int| ops[i]@)
}

/// What is done to a new application window, in order. It is registered
/// before its browser view goes in, so that the browser finds it.
pub open spec fn main_window_ops(identity: IdentityView, show_state: ShowState) -> Seq<
    WindowOpView,
> {
    let start = seq![WindowOpView::Register, WindowOpView::AddChildView];
    let titled = match identity.title {
        Some(title) => start.push(WindowOpView::SetTitle(title)),
        None => start,
    };
    let drawn = match identity.icon {
        Some(png) => titled.push(WindowOpView::SetIcons(png)),
        None => titled,
    };
    if show_state != ShowState::Hidden {
        drawn.push(WindowOpView::Show)
    } else {
        drawn
    }
}

/// What is done to a new popup window, in order. Its browser is known
/// already, and is recorded with it.
pub open spec fn popup_window_ops(show_state: ShowState) -> Seq<WindowOpView> {
    if show_state != ShowState::Hidden {
        seq![WindowOpView::AddChildView, WindowOpView::Show, WindowOpView::Register]
    } else {
        seq![WindowOpView::AddChildView, WindowOpView::Register]
    }
}

/// What CEF is told when it asks whether a window may close. `try_close` is
/// what the browser's host says; there is none without a browser, nor where
/// [`asks_host`] says not to ask.
pub open spec fn close_answer(is_closing: bool, try_close: Option<i32>) -> i32 {
    if is_closing {
        1
    } else {
        match try_close {
            Some(answer) => answer,
            None => 1,
        }
    }
}

/// Whether the browser's host is asked to close before a window may: asking
/// begins the closing, so it is not asked once its browser is closing.
pub fn asks_host(is_closing: bool) -> (ask: bool)
    ensures
        ask == !is_closing,
{
    !is_closing
}

/// What CEF is told when it asks whether a window may close: yes once its
/// browser is closing, otherwise what the browser's host says, and yes without one.
pub fn can_close(is_closing: bool, try_close: Option<i32>) -> (answer: i32)
    ensures
        answer == close_answer(is_closing, try_close),
        is_closing || try_close is None ==> answer == 1,
        !is_closing && try_close is Some ==> answer == try_close->0,
{
    if is_closing {
        return 1;
    }
    match try_close {
        Some(answer) => answer,
        None => 1,
    }
}

/// The delegate of an application window.
#[derive(Debug, PartialEq, Eq)]
pub struct KuroganeWindowDelegate {
    pub window_id: WindowId,
    pub initial_bounds: Rect,
    pub show_state: ShowState,
    pub identity: WindowIdentity,
}

impl KuroganeWindowDelegate {
    /// The names to give to the window manager, if there are any to give and a
    /// place to put them. CEF is told 1 when there are and 0 otherwise.
    pub fn linux_window_properties(&self, has_properties: bool) -> (properties: (
        Option<LinuxWindowProperties>,
        i32,
    ))
        ensures
            match properties.0 {
                Some(names) => {
                    &&& has_properties
                    &&& self.identity.class matches Some(class)
                    &&& names.wayland_app_id@ == class@
                    &&& names.wm_class_class@ == class@
                    &&& names.wm_class_name@ == class@
                    &&& properties.1 == 1
                },
                None => {
                    &&& !has_properties || self.identity.class is None
                    &&& properties.1 == 0
                },
            },
    {
        if !has_properties {
            return (None, 0);
        }
        match &self.identity.class {
            Some(class) => {
                let names = LinuxWindowProperties {
                    wayland_app_id: class.clone(),
                    wm_class_class: class.clone(),
                    wm_class_name: class.clone(),
                };
                (Some(names), 1)
            },
            None => (None, 0),
        }
    }

    /// Where the window comes up.
    pub fn initial_bounds(&self) -> (bounds: Rect)
        ensures
            bounds == self.initial_bounds,
    {
        self.initial_bounds
    }

    /// How the window comes up.
    pub fn initial_show_state(&self) -> (state: ShowState)
        ensures
            state == self.show_state,
    {
        self.show_state
    }

    /// The window has the standard buttons.
    pub fn with_standard_window_buttons(&self) -> (answer: i32)
        ensures
            answer == 1,
    {
        1
    }

    /// The user may resize the window.
    pub fn can_resize(&self) -> (answer: i32)
        ensures
            answer == 1,
    {
        1
    }

    /// The user may maximize the window.
    pub fn can_maximize(&self) -> (answer: i32)
        ensures
            answer == 1,
    {
        1
    }

    /// The user may minimize the window.
    pub fn can_minimize(&self) -> (answer: i32)
        ensures
            answer == 1,
    {
        1
    }

    /// What to do now that CEF has created the window; nothing if it hands none over.
    pub fn on_window_created(&self, has_window: bool) -> (ops: Vec<WindowOp>)
        ensures
            ops_view(ops@) == (if has_window {
                main_window_ops(self.identity@, self.show_state)
            } else {
                Seq::empty()
            }),
    {
        let mut ops: Vec<WindowOp> = Vec::new();
        if has_window {
            ops.push(WindowOp::Register);
            ops.push(WindowOp::AddChildView);
            match &self.identity.title {
                Some(title) => {
                    ops.push(WindowOp::SetTitle(title.clone()));
                },
                None => {},
            }
            match &self.identity.icon {
                Some(png) => {
                    ops.push(WindowOp::SetIcons(copy_bytes(png.as_slice())));
                },
                None => {},
            }
            if self.show_state != ShowState::Hidden {
                ops.push(WindowOp::Show);
            }
            assert(ops_view(ops@) =~= main_window_ops(self.identity@, self.show_state));
        } else {
            assert(ops_view(ops@) =~= Seq::empty());
        }
        ops
    }

    /// Carries out [`WindowOp::Register`]: the window is open, its browser not yet known.
    pub fn register(&self, registry: &mut WindowRegistry)
        requires
            old(registry).wf(),
            old(registry).issued(self.window_id),
        ensures
            final(registry).wf(),
            gives_out(old(registry).next_id, final(registry).next_id, None),
            final(registry).entries@ == with_window(old(registry).entries@, self.window_id, None),
    {
        registry.insert(self.window_id, None);
    }

    /// The window is gone.
    pub fn on_window_destroyed(&self, registry: &mut WindowRegistry)
        requires
            old(registry).wf(),
        ensures
            final(registry).wf(),
            gives_out(old(registry).next_id, final(registry).next_id, None),
            final(registry).entries@ == without_window(old(registry).entries@, self.window_id),
    {
        registry.unregister(self.window_id);
    }
}

/// The delegate of a popup window.
#[derive(Clone, Copy, Debug, PartialEq, Eq, Structural)]
pub struct KuroganePopupDelegate {
    pub window_id: WindowId,
    pub browser_id: Option<BrowserId>,
    pub show_state: ShowState,
}

impl KuroganePopupDelegate {
    /// How the window comes up.
    pub fn initial_show_state(&self) -> (state: ShowState)
        ensures
            state == self.show_state,
    {
        self.show_state
    }

    /// The window has the standard buttons.
    pub fn with_standard_window_buttons(&self) -> (answer: i32)
        ensures
            answer == 1,
    {
        1
    }

    /// The user may resize the window.
    pub fn can_resize(&self) -> (answer: i32)
        ensures
            answer == 1,
    {
        1
    }

    /// The user may maximize the window.
    pub fn can_maximize(&self) -> (answer: i32)
        ensures
            answer == 1,
    {
        1
    }

    /// The user may minimize the window.
    pub fn can_minimize(&self) -> (answer: i32)
        ensures
            answer == 1,
    {
        1
    }

    /// What to do now that CEF has created the window; nothing if it hands none over.
    pub fn on_window_created(&self, has_window: bool) -> (ops: Vec<WindowOp>)
        ensures
            ops_view(ops@) == (if has_window {
                popup_window_ops(self.show_state)
            } else {
                Seq::empty()
            }),
    {
        let mut ops: Vec<WindowOp> = Vec::new();
        if has_window {
            ops.push(WindowOp::AddChildView);
            if self.show_state != ShowState::Hidden {
                ops.push(WindowOp::Show);
            }
            ops.push(WindowOp::Register);
            assert(ops_view(ops@) =~= popup_window_ops(self.show_state));
        } else {
            assert(ops_view(ops@) =~= Seq::empty());
        }
        ops
    }

    /// Carries out [`WindowOp::Register`]: the window is open and hosts the popup's browser.
    pub fn register(&self, registry: &mut WindowRegistry)
        requires
            old(registry).wf(),
            old(registry).issued(self.window_id),
        ensures
            final(registry).wf(),
            gives_out(old(registry).next_id, final(registry).next_id, None),
            final(registry).entries@ == with_window(
                old(registry).entries@,
                self.window_id,
                self.browser_id,
            ),
    {
        registry.insert(self.window_id, self.browser_id);
    }

    /// The window is gone.
    pub fn on_window_destroyed(&self, registry: &mut WindowRegistry)
        requires
            old(registry).wf(),
        ensures
            final(registry).wf(),
            gives_out(old(registry).next_id, final(registry).next_id, None),
            final(registry).entries@ == without_window(old(registry).entries@, self.window_id),
    {
        registry.unregister(self.window_id);
    }
}

/// A popup browser view that CEF has created.
#[derive(Clone, Copy, Debug, PartialEq, Eq, Structural)]
pub struct PopupView {
    /// The CEF identifier of its browser, if it has one yet.
    pub browser: Option<i32>,
}

/// The live browser that a popup belongs to, given the CEF identifier of the
/// browser that it came from.
pub open spec fn popup_parent(services: &RuntimeServices, parent_browser: Option<i32>) -> Option<
    BrowserId,
> {
    match parent_browser {
        Some(cef_id) => id_of_cef(services.browser_registry.entries@, cef_id),
        None => None,
    }
}

/// What is recorded of a popup's browser: the browser it came from is both its
/// parent and its opener.
pub open spec fn popup_state(
    id: BrowserId,
    cef_id: i32,
    parent: Option<BrowserId>,
    is_devtools: i32,
) -> BrowserState {
    BrowserState {
        id,
        cef_id,
        metadata: BrowserMetadata {
            browser_type: if is_devtools != 0 {
                BrowserType::DevTools
            } else {
                BrowserType::Popup
            },
            parent,
            opener: parent,
        },
    }
}

/// Prepares the window of a popup: registers the popup's browser before CEF
/// announces it, and gives the window an id and a delegate. Nothing happens
/// without a popup view.
pub fn on_popup_browser_view_created(
    services: &mut RuntimeServices,
    parent_browser: Option<i32>,
    popup: Option<PopupView>,
    is_devtools: i32,
) -> (delegate: Option<KuroganePopupDelegate>)
    requires
        old(services).wf(),
        popup is Some ==> old(services).window_registry.next_id < u64::MAX,
        (popup matches Some(view) && view.browser is Some)
            ==> old(services).browser_registry.next_id < u64::MAX,
    ensures
        final(services).wf(),
        final(services).shutdown_signal == old(services).shutdown_signal,
        final(services).window_registry.entries@ == old(services).window_registry.entries@,
        delegate is Some <==> popup is Some,
        popup is None ==> *final(services) == *old(services),
        popup matches Some(view) ==> {
            let browser_id = BrowserId(old(services).browser_registry.next_id);
            let window_id = WindowId(old(services).window_registry.next_id);
            &&& gives_out(
                old(services).window_registry.next_id,
                final(services).window_registry.next_id,
                Some(window_id),
            )
            &&& delegate == Some(
                KuroganePopupDelegate {
                    window_id,
                    browser_id: if view.browser is Some {
                        Some(browser_id)
                    } else {
                        None
                    },
                    show_state: ShowState::Normal,
                },
            )
            &&& match view.browser {
                Some(cef_id) => {
                    &&& final(services).browser_registry.next_id == browser_id.0 + 1
                    &&& final(services).liveness() == life_next(
                        old(services).liveness(),
                        LifeEvent::Opened(
                            popup_state(
                                browser_id,
                                cef_id,
                                popup_parent(old(services), parent_browser),
                                is_devtools,
                            ),
                        ),
                    )
                },
                None => final(services).browser_registry == old(services).browser_registry,
            }
        },
        (popup matches Some(view) && view.browser is Some) ==> {
            let before = old(services).browser_registry.entries@;
            let after = final(services).browser_registry.entries@;
            &&& after.len() == before.len() + 1
            &&& after.drop_last() == before
            &&& after.last().id.0 == old(services).browser_registry.next_id
            &&& after.last().cef_id == popup->0.browser->0
            &&& after.last().metadata.browser_type == BrowserType::DevTools <==> is_devtools != 0
            &&& after.last().metadata.browser_type == BrowserType::Popup <==> is_devtools == 0
            &&& after.last().metadata.opener == after.last().metadata.parent
            &&& parent_browser is None ==> after.last().metadata.parent is None
            &&& parent_browser matches Some(cef_id) ==> after.last().metadata.parent == id_of_cef(
                before,
                cef_id,
            )
            &&& delegate matches Some(d) && d.browser_id == Some(after.last().id)
        },
        delegate matches Some(d) ==> d.window_id.0 == old(services).window_registry.next_id,
{
    let view = match popup {
        Some(view) => view,
        None => {
            return None;
        },
    };
    let parent_id = match parent_browser {
        Some(cef_id) => services.browser_registry.find_id_by_cef_id(cef_id),
        None => None,
    };
    let browser_type = if is_devtools != 0 {
        BrowserType::DevTools
    } else {
        BrowserType::Popup
    };
    let browser_id = match view.browser {
        Some(cef_id) => {
            let id = services.browser_registry.register(cef_id, browser_type, parent_id);
            match parent_id {
                Some(pid) => {
                    services.browser_registry.set_opener(id, Some(pid));
                    assert(services.browser_registry.entries@ =~= old(services).browser_registry.entries@.push(
                        popup_state(id, cef_id, parent_id, is_devtools),
                    )) by {
                        assert forall|j: int|
                            0 <= j < old(services).browser_registry.entries@.len() implies old(services).browser_registry.entries@[j].id != id by {
                            assert(old(services).browser_registry.entries@[j].id.0 < id.0);
                        }
                    }
                },
                None => {},
            }
            Some(id)
        },
        None => None,
    };
    proof {
        if view.browser is Some {
            assert(services.browser_registry.entries@.drop_last()
                =~= old(services).browser_registry.entries@);
        }
    }
    let window_id = services.window_registry.allocate_id();
    Some(KuroganePopupDelegate { window_id, browser_id, show_state: ShowState::Normal })
}

/// What to do with the popup window, and what CEF is told: a window that was
/// created is shown and CEF is told 1, otherwise 0.
#[derive(Clone, Copy, Debug, PartialEq, Eq, Structural)]
pub struct PopupEnd {
    pub show: bool,
    pub handled: i32,
}

/// Ends the creation of a popup, given whether its window was created.
pub fn popup_window_created(created: bool) -> (end: PopupEnd)
    ensures
        end == (if created {
            PopupEnd { show: true, handled: 1 }
        } else {
            PopupEnd { show: false, handled: 0 }
        }),
{
    if created {
        PopupEnd { show: true, handled: 1 }
    } else {
        PopupEnd { show: false, handled: 0 }
    }
}

/// A hidden window is not shown on creation, any other one is.
pub proof fn lemma_hidden_stays_hidden(identity: IdentityView, show_state: ShowState)
    ensures
        main_window_ops(identity, show_state).contains(WindowOpView::Show) <==> show_state
            != ShowState::Hidden,
        popup_window_ops(show_state).contains(WindowOpView::Show) <==> show_state
            != ShowState::Hidden,
{
    let ops = main_window_ops(identity, show_state);
    if show_state != ShowState::Hidden {
        assert(ops[ops.len() - 1] == WindowOpView::Show);
        assert(popup_window_ops(show_state)[1] == WindowOpView::Show);
    } else {
        assert forall|i: int| 0 <= i < ops.len() implies ops[i] != WindowOpView::Show by {}
        assert forall|i: int| 0 <= i < popup_window_ops(show_state).len() implies popup_window_ops(
            show_state,
        )[i] != WindowOpView::Show by {}
    }
}

/// An application window is registered before anything else is done to it.
pub proof fn lemma_main_window_registers_first(identity: IdentityView, show_state: ShowState)
    ensures
        main_window_ops(identity, show_state).len() >= 2,
        main_window_ops(identity, show_state)[0] == WindowOpView::Register,
        main_window_ops(identity, show_state)[1] == WindowOpView::AddChildView,
{
}

/// What is done to a new application window: it is recorded, then filled; its
/// title and its icon are set exactly where it has them, the title first; it is
/// shown exactly where it is not to be hidden, and last. Nothing is done twice.
pub proof fn lemma_new_window_gets_what_it_asks_for(
    identity: IdentityView,
    show_state: ShowState,
    title: Seq<char>,
    png: Seq<u8>,
)
    ensures
        ({
            let ops = main_window_ops(identity, show_state);
            let titled: int = if identity.title is Some {
                1
            } else {
                0
            };
            let drawn: int = if identity.icon is Some {
                1
            } else {
                0
            };
            let shown: int = if show_state is Hidden {
                0
            } else {
                1
            };
            &&& ops.len() == 2 + titled + drawn + shown
            &&& ops[0] is Register
            &&& ops[1] is AddChildView
            &&& identity.title == Some(title) ==> ops[2] == WindowOpView::SetTitle(title)
            &&& identity.icon == Some(png) ==> ops[2 + titled] == WindowOpView::SetIcons(png)
            &&& show_state !is Hidden ==> ops.last() is Show
        }),
{
}

/// What is done to a new popup window: it is filled, shown where it is not to
/// be hidden, and recorded last. Nothing else is done to it.
pub proof fn lemma_new_popup_is_filled_shown_and_recorded(show_state: ShowState)
    ensures
        ({
            let ops = popup_window_ops(show_state);
            &&& ops.first() is AddChildView
            &&& ops.last() is Register
            &&& show_state is Hidden <==> ops.len() == 2
            &&& show_state !is Hidden <==> ops.len() == 3 && ops[1] is Show
        }),
{
}

/// A window may close when its browser is closing or gone; otherwise that is
/// for the browser to say.
pub proof fn lemma_browser_decides_on_closing(answer: i32)
    ensures
        close_answer(true, Some(answer)) == 1,
        close_answer(true, None) == 1,
        close_answer(false, None) == 1,
        close_answer(false, Some(answer)) == answer,
{
}

/// What is recorded of a popup: what it is follows from whether it shows the
/// developer tools, and the browser that it came from both owns and opened it.
pub proof fn lemma_popup_is_recorded_as_what_it_is(
    id: BrowserId,
    cef_id: i32,
    parent: Option<BrowserId>,
    is_devtools: i32,
)
    ensures
        ({
            let state = popup_state(id, cef_id, parent, is_devtools);
            &&& state.id == id
            &&& state.cef_id == cef_id
            &&& state.metadata.parent == parent
            &&& state.metadata.opener == parent
            &&& state.metadata.browser_type is DevTools <==> is_devtools != 0
            &&& state.metadata.browser_type is Popup <==> is_devtools == 0
        }),
{
}

/// The browser that a popup came from is the live one with that CEF identifier;
/// there is none where the popup came from nowhere or from an unknown browser.
pub proof fn lemma_popup_parent_is_live(services: &RuntimeServices, cef_id: i32, i: int)
    requires
        0 <= i <= services.browser_registry.entries@.len(),
        forall|j: int|
            0 <= j < i ==> (#[trigger] services.browser_registry.entries@[j]).cef_id != cef_id,
    ensures
        popup_parent(services, None) is None,
        i == services.browser_registry.entries@.len() ==> popup_parent(services, Some(cef_id))
            is None,
        i < services.browser_registry.entries@.len() && services.browser_registry.entries@[i].cef_id
            == cef_id ==> popup_parent(services, Some(cef_id)) == Some(
            services.browser_registry.entries@[i].id,
        ),
{
    lemma_first_cef_id_is_found(services.browser_registry.entries@, cef_id, i);
}

/// Nothing of an identity or of an operation is lost in its mathematical value.
pub proof fn lemma_window_values_are_faithful(
    identity: &WindowIdentity,
    ops: Seq<WindowOp>,
    i: int,
)
    ensures
        identity@.class is Some <==> identity.class is Some,
        identity.class matches Some(text) ==> identity@.class == Some(text@),
        identity@.title is Some <==> identity.title is Some,
        identity.title matches Some(text) ==> identity@.title == Some(text@),
        identity@.icon is Some <==> identity.icon is Some,
        identity.icon matches Some(png) ==> identity@.icon == Some(png@),
        ops_view(ops).len() == ops.len(),
        0 <= i < ops.len() ==> match ops[i] {
            WindowOp::Register => ops_view(ops)[i] is Register,
            WindowOp::AddChildView => ops_view(ops)[i] is AddChildView,
            WindowOp::SetTitle(title) => ops_view(ops)[i] == WindowOpView::SetTitle(title@),
            WindowOp::SetIcons(png) => ops_view(ops)[i] == WindowOpView::SetIcons(png@),
            WindowOp::Show => ops_view(ops)[i] is Show,
        },
{
}

} // verus!
