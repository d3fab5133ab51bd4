//! The UI-thread owner of a running application: windows, child browsers, the
//! message loop and the end of it all.

use crate::app_handle::{
    browser_list, calls_view, close_calls, window_list, AppHandle, Broadcast, CefCall,
};
use crate::browser_handle::{BrowserCall, BrowserHandle};
use crate::browser_registry::{
    browser_lookup, children_in, has_browser, id_of_cef, lemma_lookup_is_by_id, BrowserId,
    BrowserMetadata,
};
use crate::error::RuntimeError;
use crate::services::{life_next, LifeEvent};
use crate::window::{IdentityView, KuroganeWindowDelegate, WindowIdentity};
use crate::window_options::{
    rect_of, show_state_of, BrowserBounds, Rect, ShowState, WindowOptions,
};
use crate::window_registry::{
    browser_hosted, gives_out, lemma_window_lookup_is_by_id, window_hosting, window_ids_in,
    WindowId, WindowMetadata,
};
use vstd::prelude::*;

verus! {

/// The window styles that CEF can give a browser.
#[derive(Clone, Copy, Debug, PartialEq, Eq, Structural)]
pub enum RuntimeStyle {
    Default,
    Chrome,
    Alloy,
}

/// A browser to be created inside an existing native window.
#[derive(Debug, PartialEq, Eq)]
pub struct ChildBrowser {
    pub runtime_style: RuntimeStyle,
    /// Where it stands in the native window.
    pub bounds: Rect,
    /// Initial URL to load.
    pub url: String,
    /// Whether it gets a request context of its own, or shares the global one.
    pub own_request_context: bool,
}

/// What to do next while waiting for a browser.
#[derive(Clone, Copy, Debug, PartialEq, Eq, Structural)]
pub enum WaitStep {
    /// The wait is over.
    Return(Option<BrowserHandle>),
    /// Pump the message loop, then sleep for this many milliseconds.
    PumpAndSleep(u64),
}

/// What to do next while waiting for the browser of `window_id`: the wait ends
/// once the window hosts a live browser, or when the time is over.
pub open spec fn wait_step(
    handle: &AppHandle,
    window_id: WindowId,
    elapsed_ns: u128,
    timeout_ns: u128,
) -> WaitStep {
    match browser_hosted(handle.open_windows(), window_id) {
        Some(browser) if has_browser(handle.live_browsers(), browser) => WaitStep::Return(
            handle.handle_of(browser),
        ),
        _ => if elapsed_ns >= timeout_ns {
            WaitStep::Return(None)
        } else {
            WaitStep::PumpAndSleep(5)
        },
    }
}

/// A wait for a browser is over at the latest when the timeout expires and is
/// given up no sooner, and a handle that it returns is to the live browser that
/// the window hosts.
pub proof fn lemma_wait_is_bounded(
    handle: &AppHandle,
    window_id: WindowId,
    elapsed_ns: u128,
    timeout_ns: u128,
)
    ensures
        elapsed_ns >= timeout_ns ==> wait_step(handle, window_id, elapsed_ns, timeout_ns) is Return,
        wait_step(handle, window_id, elapsed_ns, timeout_ns) == WaitStep::Return(None)
            ==> elapsed_ns >= timeout_ns,
        wait_step(handle, window_id, elapsed_ns, timeout_ns) matches WaitStep::Return(
            Some(found),
        ) ==> {
            &&& browser_hosted(handle.open_windows(), window_id) == Some(found.id)
            &&& has_browser(handle.live_browsers(), found.id)
        },
{
}

/// A new top-level window whose browser view has been asked for.
#[derive(Debug)]
pub struct NewWindow {
    pub options: WindowOptions,
}

/// The CEF call due when the runtime ends, if CEF has not been shut down yet.
pub open spec fn end_call(cef_shutdown_called: bool) -> Option<CefCall> {
    if cef_shutdown_called {
        None
    } else {
        Some(CefCall::Shutdown)
    }
}

/// How many times CEF is shut down by `ends` ends of the runtime, be it the
/// message loop returning, an explicit shutdown, or the owner going away.
pub open spec fn shutdowns(cef_shutdown_called: bool, ends: nat) -> nat
    decreases ends,
{
    if ends == 0 {
        0
    } else {
        (if end_call(cef_shutdown_called) == Some(CefCall::Shutdown) {
            1nat
        } else {
            0nat
        }) + shutdowns(true, (ends - 1) as nat)
    }
}

/// However often the runtime is ended, CEF is shut down exactly once.
pub proof fn lemma_cef_shuts_down_once(ends: nat)
    requires
        ends > 0,
    ensures
        shutdowns(false, ends) == 1,
{
    lemma_no_more_shutdowns((ends - 1) as nat);
}

/// Once CEF has been shut down, ending the runtime does nothing to it.
pub proof fn lemma_no_more_shutdowns(ends: nat)
    ensures
        shutdowns(true, ends) == 0,
    decreases ends,
{
    if ends > 0 {
        lemma_no_more_shutdowns((ends - 1) as nat);
    }
}

/// Owns a running application on its UI thread.
pub struct AppInstance {
    pub handle: AppHandle,
}

impl NewWindow {
    /// Goes on once CEF has or has not created the browser view: gives the
    /// window an id and the delegate to create it with.
    pub fn view_created(self, app: &mut AppInstance, created: bool) -> (delegate: Result<
        KuroganeWindowDelegate,
        RuntimeError,
    >)
        requires
            old(app).wf(),
            created ==> old(app).handle.services.window_registry.next_id < u64::MAX,
        ensures
            final(app).wf(),
            final(app).handle.ui_thread_id == old(app).handle.ui_thread_id,
            final(app).handle.cef_shutdown_called == old(app).handle.cef_shutdown_called,
            final(app).handle.services.shutdown_signal == old(app).handle.services.shutdown_signal,
            final(app).handle.services.browser_registry
                == old(app).handle.services.browser_registry,
            final(app).handle.open_windows() == old(app).handle.open_windows(),
            match delegate {
                Ok(d) => {
                    &&& created
                    &&& gives_out(
                        old(app).handle.services.window_registry.next_id,
                        final(app).handle.services.window_registry.next_id,
                        Some(d.window_id),
                    )
                    &&& d.window_id.0 == old(app).handle.services.window_registry.next_id
                    &&& d.initial_bounds == rect_of(self.options.bounds)
                    &&& d.initial_bounds.x == self.options.bounds.x
                    &&& d.initial_bounds.y == self.options.bounds.y
                    &&& d.initial_bounds.width == self.options.bounds.width
                    &&& d.initial_bounds.height == self.options.bounds.height
                    &&& d.show_state == show_state_of(self.options.show_state)
                    &&& d.show_state is Normal <==> self.options.show_state is Normal
                    &&& d.show_state is Minimized <==> self.options.show_state is Minimized
                    &&& d.show_state is Maximized <==> self.options.show_state is Maximized
                    &&& d.show_state is Hidden <==> self.options.show_state is Hidden
                    &&& d.identity@ == (IdentityView { class: None, title: None, icon: None })
                },
                Err(error) => {
                    &&& !created
                    &&& error is BrowserCreationFailed
                    &&& *final(app) == *old(app)
                },
            },
    {
        if !created {
            return Err(RuntimeError::BrowserCreationFailed);
        }
        let window_id = app.handle.services.window_registry.allocate_id();
        Ok(
            KuroganeWindowDelegate {
                window_id,
                initial_bounds: Rect::of(self.options.bounds),
                show_state: ShowState::from(self.options.show_state),
                identity: WindowIdentity::default(),
            },
        )
    }
}

/// Ends the creation of the window `id`, given whether CEF created it.
pub fn window_created(id: WindowId, created: bool) -> (window: Result<WindowId, RuntimeError>)
    ensures
        match window {
            Ok(made) => created && made == id,
            Err(error) => !created && error is WindowCreationFailed,
        },
{
    if created {
        Ok(id)
    } else {
        Err(RuntimeError::WindowCreationFailed)
    }
}

impl AppInstance {
    pub open spec fn wf(&self) -> bool {
        self.handle.wf()
    }

    /// Returns the shared handle.
    pub fn handle(&self) -> (handle: &AppHandle)
        ensures
            *handle == self.handle,
    {
        &self.handle
    }

    /// Advances Chromium by one iteration of its internal message loop.
    pub fn pump(&self) -> (call: CefCall)
        ensures
            call == CefCall::DoMessageLoopWork,
    {
        CefCall::DoMessageLoopWork
    }

    /// Returns true when shutdown has been requested.
    pub fn should_shutdown(&self) -> (should: bool)
        ensures
            should == self.handle.services.shutdown_signal.requested,
    {
        self.handle.should_shutdown()
    }

    /// Broadcast an event to all renderer processes.
    pub fn broadcast(&self, event: &str, data: &[u8]) -> (message: Broadcast)
        ensures
            message.event@ == event@,
            message.data@ == data@,
    {
        self.handle.broadcast(event, data)
    }

    /// Broadcast a JSON event to all renderer processes.
    pub fn broadcast_json(&self, event: &str, json: Option<String>) -> (message: Option<Broadcast>)
        ensures
            message is Some <==> json is Some,
            message matches Some(sent) ==> {
                &&& sent.event@ == event@
                &&& sent.data@ == vstd::utf8::encode_utf8(json->0@)
            },
    {
        self.handle.broadcast_json(event, json)
    }

    /// Begins to create a new top-level window with an embedded browser. A
    /// browser view for the URL of `options` is to be created first.
    pub fn create_window(&self, options: WindowOptions) -> (window: NewWindow)
        ensures
            window.options == options,
    {
        NewWindow { options }
    }

    /// What to do next while waiting for the browser of `window_id` to be
    /// registered, `elapsed_ns` nanoseconds into a wait of at most `timeout_ns`.
    pub fn wait_for_browser(&self, window_id: WindowId, elapsed_ns: u128, timeout_ns: u128) -> (step:
        WaitStep)
        requires
            self.wf(),
        ensures
            step == wait_step(&self.handle, window_id, elapsed_ns, timeout_ns),
    {
        let found = match self.handle.browser_for_window(window_id) {
            Some(browser_id) => self.handle.get_browser_handle(browser_id),
            None => None,
        };
        if found.is_some() || elapsed_ns >= timeout_ns {
            WaitStep::Return(found)
        } else {
            WaitStep::PumpAndSleep(5)
        }
    }

    /// Records that CEF is shut down from now on; says whether it was before.
    fn take_cef_shutdown(&mut self) -> (was_called: bool)
        ensures
            was_called == old(self).handle.cef_shutdown_called,
            final(self).handle.cef_shutdown_called,
            final(self).handle.services == old(self).handle.services,
            final(self).handle.ui_thread_id == old(self).handle.ui_thread_id,
    {
        let was_called = self.handle.cef_shutdown_called;
        self.handle.cef_shutdown_called = true;
        was_called
    }

    /// The message loop has exited: what is left to be done on the UI thread.
    pub fn run(&mut self) -> (call: Result<Option<CefCall>, RuntimeError>)
        ensures
            call == Ok::<Option<CefCall>, RuntimeError>(
                end_call(old(self).handle.cef_shutdown_called),
            ),
            final(self).handle.cef_shutdown_called,
            final(self).handle.services == old(self).handle.services,
            final(self).handle.ui_thread_id == old(self).handle.ui_thread_id,
    {
        if self.take_cef_shutdown() {
            return Ok(None);
        }
        Ok(Some(CefCall::Shutdown))
    }

    /// Perform orderly CEF shutdown: the CEF call to make, after which
    /// [`AppInstance::shutdown_complete`] has to be called. Subsequent calls
    /// are no-ops.
    pub fn shutdown(&mut self) -> (call: Option<CefCall>)
        ensures
            call == end_call(old(self).handle.cef_shutdown_called),
            final(self).handle.cef_shutdown_called,
            final(self).handle.services == old(self).handle.services,
            final(self).handle.ui_thread_id == old(self).handle.ui_thread_id,
    {
        if self.take_cef_shutdown() {
            return None;
        }
        Some(CefCall::Shutdown)
    }

    /// CEF has been shut down: shutdown counts as requested.
    pub fn shutdown_complete(&mut self)
        ensures
            final(self).handle.services.shutdown_signal.requested,
            final(self).handle.services.liveness() == life_next(
                old(self).handle.services.liveness(),
                LifeEvent::Requested,
            ),
            final(self).handle.services.browser_registry
                == old(self).handle.services.browser_registry,
            final(self).handle.services.window_registry
                == old(self).handle.services.window_registry,
            final(self).handle.cef_shutdown_called == old(self).handle.cef_shutdown_called,
            final(self).handle.ui_thread_id == old(self).handle.ui_thread_id,
    {
        self.handle.services.shutdown_signal.request_shutdown();
    }

    /// A browser hosted inside an existing native window, at `bounds`.
    pub fn create_child_browser(&self, bounds: BrowserBounds, url: &str) -> (child: ChildBrowser)
        ensures
            child.runtime_style == RuntimeStyle::Alloy,
            child.bounds == rect_of(bounds),
            child.bounds.x == bounds.x,
            child.bounds.y == bounds.y,
            child.bounds.width == bounds.width,
            child.bounds.height == bounds.height,
            child.url@ == url@,
            !child.own_request_context,
    {
        self.create_child_browser_impl(bounds, url, false)
    }

    /// Same as [`AppInstance::create_child_browser`], in a request context of
    /// its own where CEF could create one.
    pub fn create_child_browser_with_request_context(
        &self,
        bounds: BrowserBounds,
        url: &str,
        context_created: bool,
    ) -> (child: ChildBrowser)
        ensures
            child.runtime_style == RuntimeStyle::Alloy,
            child.bounds == rect_of(bounds),
            child.bounds.x == bounds.x,
            child.bounds.y == bounds.y,
            child.bounds.width == bounds.width,
            child.bounds.height == bounds.height,
            child.url@ == url@,
            child.own_request_context == context_created,
    {
        self.create_child_browser_impl(bounds, url, context_created)
    }

    fn create_child_browser_impl(
        &self,
        bounds: BrowserBounds,
        url: &str,
        own_request_context: bool,
    ) -> (child: ChildBrowser)
        ensures
            child.runtime_style == RuntimeStyle::Alloy,
            child.bounds == rect_of(bounds),
            child.bounds.x == bounds.x,
            child.bounds.y == bounds.y,
            child.bounds.width == bounds.width,
            child.bounds.height == bounds.height,
            child.url@ == url@,
            child.own_request_context == own_request_context,
    {
        ChildBrowser {
            runtime_style: RuntimeStyle::Alloy,
            bounds: Rect::of(bounds),
            url: url.to_owned(),
            own_request_context,
        }
    }

    /// Whether the browser with this CEF identifier has been registered.
    pub fn is_registered(&self, cef_id: i32) -> (registered: bool)
        ensures
            registered == (id_of_cef(self.handle.live_browsers(), cef_id) is Some),
    {
        self.handle.services.browser_registry.find_id_by_cef_id(cef_id).is_some()
    }

    /// The handle to a child browser, given the CEF identifier of what CEF
    /// created, if it did. CEF has announced that browser by then, and it is
    /// registered.
    pub fn child_browser_created(&self, created: Option<i32>) -> (handle: Option<BrowserHandle>)
        requires
            created matches Some(cef_id) ==> id_of_cef(
                self.handle.live_browsers(),
                cef_id,
            ) is Some,
        ensures
            handle == (match created {
                Some(cef_id) => Some(
                    BrowserHandle {
                        id: id_of_cef(self.handle.live_browsers(), cef_id)->0,
                        ui_thread_id: self.handle.ui_thread_id,
                    },
                ),
                None => None,
            }),
    {
        match created {
            Some(cef_id) => {
                let id = self.handle.services.browser_registry.find_id_by_cef_id(cef_id).unwrap();
                Some(BrowserHandle { id, ui_thread_id: self.handle.ui_thread_id })
            },
            None => None,
        }
    }

    /// Number of live browser instances.
    pub fn browser_count(&self) -> (n: usize)
        ensures
            n == self.handle.live_browsers().len(),
    {
        self.handle.browser_count()
    }

    /// Number of open windows.
    pub fn window_count(&self) -> (n: usize)
        ensures
            n == self.handle.open_windows().len(),
    {
        self.handle.window_count()
    }

    /// IDs of all open windows.
    pub fn window_ids(&self) -> (ids: Vec<WindowId>)
        ensures
            ids@ == window_ids_in(self.handle.open_windows()),
    {
        self.handle.window_ids()
    }

    /// Close all open windows: the windows to close, in order.
    pub fn close_all_windows(&self) -> (ids: Vec<WindowId>)
        ensures
            ids@ == window_ids_in(self.handle.open_windows()),
    {
        self.handle.close_all_windows()
    }

    /// Close all live browser instances: the calls to make, in order.
    pub fn close_all_browsers(&self, force: bool) -> (calls: Vec<BrowserCall>)
        ensures
            calls_view(calls@) == close_calls(self.handle.live_browsers(), force),
    {
        self.handle.close_all_browsers(force)
    }

    /// Look up the window that hosts a given browser.
    pub fn find_window_by_browser(&self, browser_id: BrowserId) -> (id: Option<WindowId>)
        ensures
            id == window_hosting(self.handle.open_windows(), browser_id),
    {
        self.handle.find_window_by_browser(browser_id)
    }

    /// Metadata for all live browsers.
    pub fn browsers(&self) -> (list: Vec<(BrowserId, BrowserMetadata)>)
        ensures
            list@ == browser_list(self.handle.live_browsers()),
    {
        self.handle.browsers()
    }

    /// Metadata for all open windows.
    pub fn windows(&self) -> (list: Vec<(WindowId, WindowMetadata)>)
        ensures
            list@ == window_list(self.handle.open_windows()),
    {
        self.handle.windows()
    }

    /// Parent of a given browser.
    pub fn browser_parent(&self, id: BrowserId) -> (parent: Option<BrowserId>)
        requires
            self.wf(),
        ensures
            parent == (match browser_lookup(self.handle.live_browsers(), id) {
                Some(state) => state.metadata.parent,
                None => None,
            }),
    {
        self.handle.browser_parent(id)
    }

    /// Returns the opener BrowserId for a given browser, if any.
    pub fn browser_opener(&self, id: BrowserId) -> (opener: Option<BrowserId>)
        requires
            self.wf(),
        ensures
            opener == (match browser_lookup(self.handle.live_browsers(), id) {
                Some(state) => state.metadata.opener,
                None => None,
            }),
    {
        self.handle.browser_opener(id)
    }

    /// Returns all browsers whose parent is the given BrowserId.
    pub fn children_of(&self, id: BrowserId) -> (children: Vec<BrowserId>)
        ensures
            children@ == children_in(self.handle.live_browsers(), id),
    {
        self.handle.children_of(id)
    }

    /// Returns the BrowserId hosted in the given window, if any.
    pub fn browser_for_window(&self, id: WindowId) -> (browser: Option<BrowserId>)
        requires
            self.wf(),
        ensures
            browser == browser_hosted(self.handle.open_windows(), id),
    {
        self.handle.browser_for_window(id)
    }

    /// Create a BrowserHandle for a registered browser id.
    pub fn get_browser_handle(&self, id: BrowserId) -> (handle: Option<BrowserHandle>)
        requires
            self.wf(),
        ensures
            handle == self.handle.handle_of(id),
    {
        self.handle.get_browser_handle(id)
    }
}

/// A wait ends with a handle as soon as the window hosts a live browser, even
/// after the timeout. Without one it ends empty-handed when the time is over,
/// and until then the message loop is pumped every five milliseconds.
pub proof fn lemma_wait_is_for_a_live_browser(
    app: &AppHandle,
    window: WindowId,
    elapsed_ns: u128,
    timeout_ns: u128,
    w: int,
    b: int,
)
    requires
        app.wf(),
        0 <= w < app.services.window_registry.entries@.len(),
        app.services.window_registry.entries@[w].id == window,
    ensures
        ({
            let hosted = app.services.window_registry.entries@[w].metadata.browser;
            let browsers = app.services.browser_registry.entries@;
            let step = wait_step(app, window, elapsed_ns, timeout_ns);
            let given_up = if elapsed_ns >= timeout_ns {
                WaitStep::Return(None)
            } else {
                WaitStep::PumpAndSleep(5)
            };
            &&& 0 <= b < browsers.len() && hosted == Some(browsers[b].id) ==> {
                &&& step matches WaitStep::Return(Some(handle))
                &&& handle.id == browsers[b].id
                &&& handle.ui_thread_id == app.ui_thread_id
            }
            &&& hosted is None ==> step == given_up
            &&& (forall|j: int|
                0 <= j < browsers.len() ==> hosted != Some((#[trigger] browsers[j]).id))
                ==> step == given_up
        }),
{
    let windows = app.services.window_registry.entries@;
    let browsers = app.services.browser_registry.entries@;
    lemma_window_lookup_is_by_id(windows, window);
    let k = choose|k: int|
        0 <= k < windows.len() && (#[trigger] windows[k]).id == window
            && windows[k].metadata.browser == browser_hosted(windows, window);
    if k < w {
        assert(windows[k].id != windows[w].id);
    } else if w < k {
        assert(windows[w].id != windows[k].id);
    }
    if let Some(browser) = windows[w].metadata.browser {
        lemma_lookup_is_by_id(browsers, browser);
    }
}

/// Waiting for the browser of a window that is not open goes on until the time
/// is over.
pub proof fn lemma_wait_for_no_window_times_out(
    app: &AppHandle,
    window: WindowId,
    elapsed_ns: u128,
    timeout_ns: u128,
)
    requires
        forall|i: int|
            0 <= i < app.services.window_registry.entries@.len() ==> (
            #[trigger] app.services.window_registry.entries@[i]).id != window,
    ensures
        elapsed_ns >= timeout_ns ==> wait_step(app, window, elapsed_ns, timeout_ns)
            == WaitStep::Return(None),
        elapsed_ns < timeout_ns ==> wait_step(app, window, elapsed_ns, timeout_ns)
            == WaitStep::PumpAndSleep(5),
{
    lemma_window_lookup_is_by_id(app.services.window_registry.entries@, window);
}

/// Ending the runtime shuts CEF down exactly where that has not been done.
pub proof fn lemma_ending_shuts_cef_down(cef_shutdown_called: bool)
    ensures
        end_call(cef_shutdown_called) is None <==> cef_shutdown_called,
        end_call(cef_shutdown_called) matches Some(call) ==> call is Shutdown,
{
}

} // verus!
