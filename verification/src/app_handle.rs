//! The lifecycle handle of a running application: what it can be asked, and
//! what it does to the shared state.

use crate::browser_handle::{
    BrowserCall, BrowserCallView, BrowserHandle, BrowserOp, BrowserOpView, ThreadToken,
};
use crate::browser_registry::{
    browser_lookup, children_in, has_browser, lemma_lookup_is_by_id, BrowserId, BrowserMetadata,
    BrowserState,
};
use crate::services::{life_next, LifeEvent, RuntimeServices};
use crate::settings::{flag, to_flag};
use crate::window::copy_bytes;
use crate::window_registry::{
    browser_hosted, window_hosting, window_ids_in, WindowEntry, WindowId, WindowMetadata,
};
use vstd::prelude::*;

verus! {

/// A call into CEF that concerns the whole process.
#[derive(Clone, Copy, Debug, PartialEq, Eq, Structural)]
pub enum CefCall {
    /// Advance the message loop by one iteration.
    DoMessageLoopWork,
    /// Make the message loop return.
    QuitMessageLoop,
    /// Shut CEF down.
    Shutdown,
}

/// An event for every renderer that subscribed to it.
#[derive(Debug, PartialEq, Eq)]
pub struct Broadcast {
    pub event: String,
    pub data: Vec<u8>,
}

/// The values of a list of calls.
pub open spec fn calls_view(calls: Seq<BrowserCall>) -> Seq<BrowserCallView> {
    Seq::new(calls.len(), |i: int| calls[i]@)
}

/// The calls that close `browsers`, in order.
pub open spec fn close_calls(browsers: Seq<BrowserState>, force: bool) -> Seq<BrowserCallView> {
    Seq::new(
        browsers.len(),
        |i: int|
            BrowserCallView {
                cef_id: browsers[i].cef_id,
                op: BrowserOpView::CloseBrowser(flag(force)),
            },
    )
}

/// The ids and metadata of `browsers`, in order.
pub open spec fn browser_list(browsers: Seq<BrowserState>) -> Seq<(BrowserId, BrowserMetadata)> {
    Seq::new(browsers.len(), |i: int| (browsers[i].id, browsers[i].metadata))
}

/// The ids and metadata of `windows`, in order.
pub open spec fn window_list(windows: Seq<WindowEntry>) -> Seq<(WindowId, WindowMetadata)> {
    Seq::new(windows.len(), |i: int| (windows[i].id, windows[i].metadata))
}

/// The state behind every handle to one running application.
pub struct AppHandle {
    pub services: RuntimeServices,
    /// The thread on which the runtime was initialized.
    pub ui_thread_id: ThreadToken,
    pub cef_shutdown_called: bool,
}

impl AppHandle {
    pub open spec fn wf(&self) -> bool {
        self.services.wf()
    }

    /// The live browsers, in the order in which they were registered.
    pub open spec fn live_browsers(&self) -> Seq<BrowserState> {
        self.services.browser_registry.entries@
    }

    /// The open windows, in the order in which they opened.
    pub open spec fn open_windows(&self) -> Seq<WindowEntry> {
        self.services.window_registry.entries@
    }

    /// A handle to a runtime that has just been initialized on `ui_thread_id`.
    pub fn new(services: RuntimeServices, ui_thread_id: ThreadToken) -> (handle: AppHandle)
        ensures
            handle.services == services,
            handle.ui_thread_id == ui_thread_id,
            !handle.cef_shutdown_called,
    {
        AppHandle { services, ui_thread_id, cef_shutdown_called: false }
    }

    /// Signals the CEF message loop to exit.
    ///
    /// CEF itself is shut down on the UI thread after the loop has exited.
    pub fn shutdown(&mut self) -> (call: CefCall)
        ensures
            call == CefCall::QuitMessageLoop,
            final(self).services.shutdown_signal.requested,
            final(self).services.liveness() == life_next(
                old(self).services.liveness(),
                LifeEvent::Requested,
            ),
            final(self).services.browser_registry == old(self).services.browser_registry,
            final(self).services.window_registry == old(self).services.window_registry,
            final(self).ui_thread_id == old(self).ui_thread_id,
            final(self).cef_shutdown_called == old(self).cef_shutdown_called,
    {
        self.services.shutdown_signal.request_shutdown();
        CefCall::QuitMessageLoop
    }

    /// Returns true when shutdown has been requested.
    pub fn should_shutdown(&self) -> (should: bool)
        ensures
            should == self.services.shutdown_signal.requested,
    {
        self.services.shutdown_signal.is_shutdown_requested()
    }

    /// Broadcast an event to all renderers subscribed to `event`.
    pub fn broadcast(&self, event: &str, data: &[u8]) -> (message: Broadcast)
        ensures
            message.event@ == event@,
            message.data@ == data@,
    {
        Broadcast { event: event.to_owned(), data: copy_bytes(data) }
    }

    /// Broadcast a JSON event to all renderers subscribed to `event`.
    ///
    /// `json` is the serialized value; a value that does not serialize is not sent.
    pub fn broadcast_json(&self, event: &str, json: Option<String>) -> (message: Option<Broadcast>)
        ensures
            message is Some <==> json is Some,
            message matches Some(sent) ==> {
                &&& sent.event@ == event@
                &&& sent.data@ == vstd::utf8::encode_utf8(json->0@)
            },
    {
        match json {
            Some(text) => Some(self.broadcast(event, text.as_str().as_bytes())),
            None => None,
        }
    }

    /// Number of currently live browser instances.
    pub fn browser_count(&self) -> (n: usize)
        ensures
            n == self.live_browsers().len(),
            n == self.services.browser_registry.entries@.len(),
    {
        self.services.browser_registry.count()
    }

    /// Number of currently open windows.
    pub fn window_count(&self) -> (n: usize)
        ensures
            n == self.open_windows().len(),
            n == self.services.window_registry.entries@.len(),
    {
        self.services.window_registry.count()
    }

    /// IDs of all open windows.
    pub fn window_ids(&self) -> (ids: Vec<WindowId>)
        ensures
            ids@ == window_ids_in(self.open_windows()),
    {
        self.services.window_registry.ids()
    }

    /// Close all open windows: the windows to close, in order.
    pub fn close_all_windows(&self) -> (ids: Vec<WindowId>)
        ensures
            ids@ == window_ids_in(self.open_windows()),
    {
        self.services.window_registry.ids()
    }

    /// Close all live browser instances: the calls to make, in order.
    pub fn close_all_browsers(&self, force: bool) -> (calls: Vec<BrowserCall>)
        ensures
            calls_view(calls@) == close_calls(self.live_browsers(), force),
    {
        let browsers = &self.services.browser_registry.entries;
        let mut calls: Vec<BrowserCall> = Vec::new();
        let mut i: usize = 0;
        while i < browsers.len()
            invariant
                i <= browsers@.len(),
                calls@.len() == i,
                forall|j: int|
                    0 <= j < i ==> (#[trigger] calls@[j])@ == close_calls(browsers@, force)[j],
            decreases browsers@.len() - i,
        {
            let op = BrowserOp::CloseBrowser(to_flag(force));
            calls.push(BrowserCall { cef_id: browsers[i].cef_id, op });
            i += 1;
        }
        assert(calls_view(calls@) =~= close_calls(browsers@, force));
        calls
    }

    /// Look up the window that hosts a given browser.
    pub fn find_window_by_browser(&self, browser_id: BrowserId) -> (id: Option<WindowId>)
        ensures
            id == window_hosting(self.open_windows(), browser_id),
    {
        self.services.window_registry.window_id_for_browser(browser_id)
    }

    /// Metadata for all live browsers.
    pub fn browsers(&self) -> (list: Vec<(BrowserId, BrowserMetadata)>)
        ensures
            list@ == browser_list(self.live_browsers()),
    {
        let browsers = &self.services.browser_registry.entries;
        let mut list: Vec<(BrowserId, BrowserMetadata)> = Vec::new();
        let mut i: usize = 0;
        while i < browsers.len()
            invariant
                i <= browsers@.len(),
                list@.len() == i,
                forall|j: int| 0 <= j < i ==> #[trigger] list@[j] == browser_list(browsers@)[j],
            decreases browsers@.len() - i,
        {
            list.push((browsers[i].id, browsers[i].metadata));
            i += 1;
        }
        assert(list@ =~= browser_list(browsers@));
        list
    }

    /// Metadata for all open windows.
    pub fn windows(&self) -> (list: Vec<(WindowId, WindowMetadata)>)
        ensures
            list@ == window_list(self.open_windows()),
    {
        let windows = &self.services.window_registry.entries;
        let mut list: Vec<(WindowId, WindowMetadata)> = Vec::new();
        let mut i: usize = 0;
        while i < windows.len()
            invariant
                i <= windows@.len(),
                list@.len() == i,
                forall|j: int| 0 <= j < i ==> #[trigger] list@[j] == window_list(windows@)[j],
            decreases windows@.len() - i,
        {
            list.push((windows[i].id, windows[i].metadata));
            i += 1;
        }
        assert(list@ =~= window_list(windows@));
        list
    }

    /// Parent of a given browser.
    pub fn browser_parent(&self, id: BrowserId) -> (parent: Option<BrowserId>)
        requires
            self.wf(),
        ensures
            parent == (match browser_lookup(self.live_browsers(), id) {
                Some(state) => state.metadata.parent,
                None => None,
            }),
    {
        self.services.browser_registry.browser_parent(id)
    }

    /// Opener of a given browser.
    pub fn browser_opener(&self, id: BrowserId) -> (opener: Option<BrowserId>)
        requires
            self.wf(),
        ensures
            opener == (match browser_lookup(self.live_browsers(), id) {
                Some(state) => state.metadata.opener,
                None => None,
            }),
    {
        self.services.browser_registry.browser_opener(id)
    }

    /// All children of the given parent browser.
    pub fn children_of(&self, id: BrowserId) -> (children: Vec<BrowserId>)
        ensures
            children@ == children_in(self.live_browsers(), id),
    {
        self.services.browser_registry.children_of(id)
    }

    /// Browser hosted in the given window.
    pub fn browser_for_window(&self, id: WindowId) -> (browser: Option<BrowserId>)
        requires
            self.wf(),
        ensures
            browser == browser_hosted(self.open_windows(), id),
    {
        self.services.window_registry.browser_for_window(id)
    }

    /// The handle that `id` gets.
    pub open spec fn handle_of(&self, id: BrowserId) -> Option<BrowserHandle> {
        if has_browser(self.live_browsers(), id) {
            Some(BrowserHandle { id, ui_thread_id: self.ui_thread_id })
        } else {
            None
        }
    }

    /// Creates a BrowserHandle for a registered browser, if it exists.
    ///
    /// Returns None if no browser with the given BrowserId is registered.
    pub fn get_browser_handle(&self, id: BrowserId) -> (handle: Option<BrowserHandle>)
        requires
            self.wf(),
        ensures
            handle == self.handle_of(id),
    {
        if self.services.browser_registry.get(id).is_some() {
            Some(BrowserHandle { id, ui_thread_id: self.ui_thread_id })
        } else {
            None
        }
    }
}

/// Closing all browsers makes one call for each live browser, in order, and
/// forces it exactly if that was asked for.
pub proof fn lemma_every_browser_is_told_to_close(
    browsers: Seq<BrowserState>,
    force: bool,
    i: int,
)
    ensures
        close_calls(browsers, force).len() == browsers.len(),
        0 <= i < browsers.len() ==> {
            let call = close_calls(browsers, force)[i];
            &&& call.cef_id == browsers[i].cef_id
            &&& force ==> call.op == BrowserOpView::CloseBrowser(1)
            &&& !force ==> call.op == BrowserOpView::CloseBrowser(0)
        },
{
}

/// The calls of a list are its calls, in the same order.
pub proof fn lemma_calls_keep_their_order(calls: Seq<BrowserCall>, i: int)
    ensures
        calls_view(calls).len() == calls.len(),
        0 <= i < calls.len() ==> {
            &&& calls_view(calls)[i].cef_id == calls[i].cef_id
            &&& calls_view(calls)[i].op == calls[i].op@
        },
{
}

/// The lists hold every live browser and every open window once, each with what
/// is known of it, in the order in which they came.
pub proof fn lemma_lists_hold_everything(
    browsers: Seq<BrowserState>,
    windows: Seq<WindowEntry>,
    i: int,
)
    ensures
        browser_list(browsers).len() == browsers.len(),
        window_list(windows).len() == windows.len(),
        0 <= i < browsers.len() ==> browser_list(browsers)[i].0 == browsers[i].id
            && browser_list(browsers)[i].1 == browsers[i].metadata,
        0 <= i < windows.len() ==> window_list(windows)[i].0 == windows[i].id && window_list(
            windows,
        )[i].1 == windows[i].metadata,
{
}

/// The live browsers and the open windows are those of the registries, and a
/// handle can be had exactly to a live browser: it names that browser, and the
/// thread on which the runtime was initialized.
pub proof fn lemma_handles_are_to_live_browsers(app: &AppHandle, id: BrowserId)
    ensures
        app.live_browsers() == app.services.browser_registry.entries@,
        app.open_windows() == app.services.window_registry.entries@,
        app.handle_of(id) is Some <==> exists|i: int|
            0 <= i < app.services.browser_registry.entries@.len() && (
            #[trigger] app.services.browser_registry.entries@[i]).id == id,
        app.handle_of(id) matches Some(handle) ==> handle.id == id && handle.ui_thread_id
            == app.ui_thread_id,
{
    lemma_lookup_is_by_id(app.services.browser_registry.entries@, id);
}

} // verus!
