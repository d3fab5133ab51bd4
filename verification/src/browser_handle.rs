//! Control of one browser.
//!
//! A handle only names its browser. Each command looks the browser up among
//! the live ones and says which CEF call to make of it; when the browser is
//! gone there is none. Each question takes what CEF answered and is answered
//! as for a browser that is gone when it is.

use crate::browser_registry::{
    browser_lookup, has_browser, lemma_lookup_is_by_id, BrowserId, BrowserRegistry,
};
use crate::settings::{flag, to_flag};
use vstd::prelude::*;

verus! {

/// A CEF call on a browser, on its host, or on its main frame.
#[derive(Debug, PartialEq, Eq)]
pub enum BrowserOp {
    /// With the force flag.
    CloseBrowser(i32),
    WasResized,
    NotifyMoveOrResizeStarted,
    /// With CEF's defaults.
    ShowDevTools,
    CloseDevTools,
    LoadUrl(String),
    ExecuteJavaScript { code: String, script_url: String, start_line: i32 },
    Reload,
    ReloadIgnoreCache,
    GoBack,
    GoForward,
}

/// The mathematical value of a [`BrowserOp`].
pub enum BrowserOpView {
    CloseBrowser(i32),
    WasResized,
    NotifyMoveOrResizeStarted,
    ShowDevTools,
    CloseDevTools,
    LoadUrl(Seq<char>),
    ExecuteJavaScript { code: Seq<char>, script_url: Seq<char>, start_line: i32 },
    Reload,
    ReloadIgnoreCache,
    GoBack,
    GoForward,
}

impl View for BrowserOp {
    type V = BrowserOpView;

    open spec fn view(&self) -> BrowserOpView {
        match self {
            BrowserOp::CloseBrowser(force) => BrowserOpView::CloseBrowser(*force),
            BrowserOp::WasResized => BrowserOpView::WasResized,
            BrowserOp::NotifyMoveOrResizeStarted => BrowserOpView::NotifyMoveOrResizeStarted,
            BrowserOp::ShowDevTools => BrowserOpView::ShowDevTools,
            BrowserOp::CloseDevTools => BrowserOpView::CloseDevTools,
            BrowserOp::LoadUrl(url) => BrowserOpView::LoadUrl(url@),
            BrowserOp::ExecuteJavaScript { code, script_url, start_line } => {
                BrowserOpView::ExecuteJavaScript {
                    code: code@,
                    script_url: script_url@,
                    start_line: *start_line,
                }
            },
            BrowserOp::Reload => BrowserOpView::Reload,
            BrowserOp::ReloadIgnoreCache => BrowserOpView::ReloadIgnoreCache,
            BrowserOp::GoBack => BrowserOpView::GoBack,
            BrowserOp::GoForward => BrowserOpView::GoForward,
        }
    }
}

/// What a CEF call is made on.
#[derive(Clone, Copy, Debug, PartialEq, Eq, Structural)]
pub enum CallTarget {
    Browser,
    Host,
    MainFrame,
}

/// What `op` is made on.
pub open spec fn op_target(op: BrowserOpView) -> CallTarget {
    match op {
        BrowserOpView::CloseBrowser(_) => CallTarget::Host,
        BrowserOpView::WasResized => CallTarget::Host,
        BrowserOpView::NotifyMoveOrResizeStarted => CallTarget::Host,
        BrowserOpView::ShowDevTools => CallTarget::Host,
        BrowserOpView::CloseDevTools => CallTarget::Host,
        BrowserOpView::LoadUrl(_) => CallTarget::MainFrame,
        BrowserOpView::ExecuteJavaScript { .. } => CallTarget::MainFrame,
        BrowserOpView::Reload => CallTarget::Browser,
        BrowserOpView::ReloadIgnoreCache => CallTarget::Browser,
        BrowserOpView::GoBack => CallTarget::Browser,
        BrowserOpView::GoForward => CallTarget::Browser,
    }
}

/// Whether a browser with or without a host and a main frame has `target`.
pub open spec fn has_target(target: CallTarget, has_host: bool, has_main_frame: bool) -> bool {
    match target {
        CallTarget::Browser => true,
        CallTarget::Host => has_host,
        CallTarget::MainFrame => has_main_frame,
    }
}

impl BrowserOp {
    /// What this call is made on, given whether the browser has a host and a
    /// main frame; it is left out where the browser lacks what it is made on.
    pub fn site(&self, has_host: bool, has_main_frame: bool) -> (site: Option<CallTarget>)
        ensures
            site == (if has_target(op_target(self@), has_host, has_main_frame) {
                Some(op_target(self@))
            } else {
                None
            }),
    {
        match self {
            BrowserOp::CloseBrowser(_)
            | BrowserOp::WasResized
            | BrowserOp::NotifyMoveOrResizeStarted
            | BrowserOp::ShowDevTools
            | BrowserOp::CloseDevTools => if has_host {
                Some(CallTarget::Host)
            } else {
                None
            },
            BrowserOp::LoadUrl(_) | BrowserOp::ExecuteJavaScript { .. } => if has_main_frame {
                Some(CallTarget::MainFrame)
            } else {
                None
            },
            BrowserOp::Reload
            | BrowserOp::ReloadIgnoreCache
            | BrowserOp::GoBack
            | BrowserOp::GoForward => Some(CallTarget::Browser),
        }
    }
}

/// A CEF call to make, and the CEF identifier of the browser to make it on.
#[derive(Debug, PartialEq, Eq)]
pub struct BrowserCall {
    pub cef_id: i32,
    pub op: BrowserOp,
}

/// The mathematical value of a [`BrowserCall`].
pub struct BrowserCallView {
    pub cef_id: i32,
    pub op: BrowserOpView,
}

impl View for BrowserCall {
    type V = BrowserCallView;

    open spec fn view(&self) -> BrowserCallView {
        BrowserCallView { cef_id: self.cef_id, op: self.op@ }
    }
}

/// The value of an optional call.
pub open spec fn optional_call(call: Option<BrowserCall>) -> Option<BrowserCallView> {
    match call {
        Some(c) => Some(c@),
        None => None,
    }
}

/// Tells the threads of the process apart: each has one number, its own.
#[derive(Clone, Copy, Debug, PartialEq, Eq, Structural)]
pub struct ThreadToken(pub u64);

/// Controls a browser by its id, from the UI thread.
#[derive(Clone, Copy, Debug, PartialEq, Eq, Structural)]
pub struct BrowserHandle {
    pub id: BrowserId,
    /// The thread on which the runtime was initialized.
    pub ui_thread_id: ThreadToken,
}

impl BrowserHandle {
    /// `op` on the browser of this handle, if it is live.
    pub open spec fn directed(
        &self,
        registry: &BrowserRegistry,
        op: BrowserOpView,
    ) -> Option<BrowserCallView> {
        match browser_lookup(registry.entries@, self.id) {
            Some(state) => Some(BrowserCallView { cef_id: state.cef_id, op }),
            None => None,
        }
    }

    /// The browser of this handle is live.
    pub open spec fn is_live(&self, registry: &BrowserRegistry) -> bool {
        has_browser(registry.entries@, self.id)
    }

    /// `op` on the browser of this handle, if it is live.
    fn direct(&self, registry: &BrowserRegistry, op: BrowserOp) -> (call: Option<BrowserCall>)
        requires
            registry.wf(),
        ensures
            optional_call(call) == self.directed(registry, op@),
    {
        match registry.get(self.id) {
            Some(state) => Some(BrowserCall { cef_id: state.cef_id, op }),
            None => None,
        }
    }

    /// Whether `current` is the thread that the methods of this handle have to
    /// be called from: the UI thread on which the runtime was initialized.
    pub fn on_ui_thread(&self, current: ThreadToken) -> (right: bool)
        ensures
            right == (current == self.ui_thread_id),
    {
        current == self.ui_thread_id
    }

    pub fn id(&self) -> (id: BrowserId)
        ensures
            id == self.id,
    {
        self.id
    }

    /// The CEF identifier of the browser to put a question to, if it is live.
    pub fn cef_id(&self, registry: &BrowserRegistry) -> (cef_id: Option<i32>)
        requires
            registry.wf(),
        ensures
            cef_id == (match browser_lookup(registry.entries@, self.id) {
                Some(state) => Some(state.cef_id),
                None => None,
            }),
    {
        match registry.get(self.id) {
            Some(state) => Some(state.cef_id),
            None => None,
        }
    }

    /// Close the browser.
    pub fn close(&self, registry: &BrowserRegistry, force: bool) -> (call: Option<BrowserCall>)
        requires
            registry.wf(),
        ensures
            optional_call(call) == self.directed(
                registry,
                BrowserOpView::CloseBrowser(flag(force)),
            ),
    {
        self.direct(registry, BrowserOp::CloseBrowser(to_flag(force)))
    }

    /// Tell the browser that its native window changed size.
    pub fn notify_resized(&self, registry: &BrowserRegistry) -> (call: Option<BrowserCall>)
        requires
            registry.wf(),
        ensures
            optional_call(call) == self.directed(registry, BrowserOpView::WasResized),
    {
        self.direct(registry, BrowserOp::WasResized)
    }

    /// Tell the browser that its native window is about to move or change size.
    pub fn notify_move_or_resize_started(&self, registry: &BrowserRegistry) -> (call: Option<
        BrowserCall,
    >)
        requires
            registry.wf(),
        ensures
            optional_call(call) == self.directed(
                registry,
                BrowserOpView::NotifyMoveOrResizeStarted,
            ),
    {
        self.direct(registry, BrowserOp::NotifyMoveOrResizeStarted)
    }

    /// Navigate the main frame to the given URL.
    pub fn navigate(&self, registry: &BrowserRegistry, url: &str) -> (call: Option<BrowserCall>)
        requires
            registry.wf(),
        ensures
            optional_call(call) == self.directed(registry, BrowserOpView::LoadUrl(url@)),
    {
        self.direct(registry, BrowserOp::LoadUrl(url.to_owned()))
    }

    /// Reload the current page.
    pub fn reload(&self, registry: &BrowserRegistry) -> (call: Option<BrowserCall>)
        requires
            registry.wf(),
        ensures
            optional_call(call) == self.directed(registry, BrowserOpView::Reload),
    {
        self.direct(registry, BrowserOp::Reload)
    }

    /// Reload the current page, ignoring cached content.
    pub fn reload_ignore_cache(&self, registry: &BrowserRegistry) -> (call: Option<BrowserCall>)
        requires
            registry.wf(),
        ensures
            optional_call(call) == self.directed(registry, BrowserOpView::ReloadIgnoreCache),
    {
        self.direct(registry, BrowserOp::ReloadIgnoreCache)
    }

    /// Navigate back in history, if possible.
    pub fn go_back(&self, registry: &BrowserRegistry) -> (call: Option<BrowserCall>)
        requires
            registry.wf(),
        ensures
            optional_call(call) == self.directed(registry, BrowserOpView::GoBack),
    {
        self.direct(registry, BrowserOp::GoBack)
    }

    /// Navigate forward in history, if possible.
    pub fn go_forward(&self, registry: &BrowserRegistry) -> (call: Option<BrowserCall>)
        requires
            registry.wf(),
        ensures
            optional_call(call) == self.directed(registry, BrowserOpView::GoForward),
    {
        self.direct(registry, BrowserOp::GoForward)
    }

    /// Execute JavaScript in the main frame.
    pub fn execute_javascript(
        &self,
        registry: &BrowserRegistry,
        code: &str,
        script_url: &str,
        start_line: i32,
    ) -> (call: Option<BrowserCall>)
        requires
            registry.wf(),
        ensures
            optional_call(call) == self.directed(
                registry,
                (BrowserOpView::ExecuteJavaScript {
                    code: code@,
                    script_url: script_url@,
                    start_line,
                }),
            ),
    {
        self.direct(
            registry,
            BrowserOp::ExecuteJavaScript {
                code: code.to_owned(),
                script_url: script_url.to_owned(),
                start_line,
            },
        )
    }

    /// Open DevTools for this browser.
    pub fn show_devtools(&self, registry: &BrowserRegistry) -> (call: Option<BrowserCall>)
        requires
            registry.wf(),
        ensures
            optional_call(call) == self.directed(registry, BrowserOpView::ShowDevTools),
    {
        self.direct(registry, BrowserOp::ShowDevTools)
    }

    /// Close DevTools if open.
    pub fn close_devtools(&self, registry: &BrowserRegistry) -> (call: Option<BrowserCall>)
        requires
            registry.wf(),
        ensures
            optional_call(call) == self.directed(registry, BrowserOpView::CloseDevTools),
    {
        self.direct(registry, BrowserOp::CloseDevTools)
    }

    /// Returns true if the browser can go back, `answer` being what it says.
    pub fn can_go_back(&self, registry: &BrowserRegistry, answer: i32) -> (can: bool)
        requires
            registry.wf(),
        ensures
            can == (self.is_live(registry) && answer != 0),
    {
        registry.get(self.id).is_some() && answer != 0
    }

    /// Returns true if the browser can go forward, `answer` being what it says.
    pub fn can_go_forward(&self, registry: &BrowserRegistry, answer: i32) -> (can: bool)
        requires
            registry.wf(),
        ensures
            can == (self.is_live(registry) && answer != 0),
    {
        registry.get(self.id).is_some() && answer != 0
    }

    /// Returns true if the browser is currently loading, `answer` being what it says.
    pub fn is_loading(&self, registry: &BrowserRegistry, answer: i32) -> (loading: bool)
        requires
            registry.wf(),
        ensures
            loading == (self.is_live(registry) && answer != 0),
    {
        registry.get(self.id).is_some() && answer != 0
    }

    /// Returns true if DevTools is currently open for this browser. `answer`
    /// is what its host says; there is none without a host.
    pub fn has_devtools(&self, registry: &BrowserRegistry, answer: Option<i32>) -> (open: bool)
        requires
            registry.wf(),
        ensures
            open == (self.is_live(registry) && (answer matches Some(value) && value != 0)),
    {
        if registry.get(self.id).is_none() {
            return false;
        }
        match answer {
            Some(value) => value != 0,
            None => false,
        }
    }

    /// Returns the current URL of the main frame, `answer` being what the
    /// frame says; empty without a browser or a main frame.
    pub fn url(&self, registry: &BrowserRegistry, answer: Option<String>) -> (url: String)
        requires
            registry.wf(),
        ensures
            url@ == (match answer {
                Some(text) if self.is_live(registry) => text@,
                _ => Seq::empty(),
            }),
    {
        if registry.get(self.id).is_none() {
            return String::new();
        }
        match answer {
            Some(text) => text,
            None => String::new(),
        }
    }
}

/// What each call is made on: closing, resizing and the developer tools on the
/// host, loading and scripts on the main frame, the rest on the browser itself.
pub proof fn lemma_calls_are_made_where_they_belong(
    op: BrowserOpView,
    has_host: bool,
    has_main_frame: bool,
)
    ensures
        op_target(op) is Host <==> op is CloseBrowser || op is WasResized
            || op is NotifyMoveOrResizeStarted || op is ShowDevTools || op is CloseDevTools,
        op_target(op) is MainFrame <==> op is LoadUrl || op is ExecuteJavaScript,
        op_target(op) is Browser <==> op is Reload || op is ReloadIgnoreCache || op is GoBack
            || op is GoForward,
        has_target(CallTarget::Browser, has_host, has_main_frame),
        has_target(CallTarget::Host, has_host, has_main_frame) <==> has_host,
        has_target(CallTarget::MainFrame, has_host, has_main_frame) <==> has_main_frame,
{
}

/// Nothing of a call is lost in its mathematical value.
pub proof fn lemma_call_value_is_faithful(call: BrowserCall)
    ensures
        call@.cef_id == call.cef_id,
        optional_call(Some(call)) == Some(call@),
        optional_call(None) is None,
        match call.op {
            BrowserOp::CloseBrowser(force) => call@.op == BrowserOpView::CloseBrowser(force),
            BrowserOp::WasResized => call@.op is WasResized,
            BrowserOp::NotifyMoveOrResizeStarted => call@.op is NotifyMoveOrResizeStarted,
            BrowserOp::ShowDevTools => call@.op is ShowDevTools,
            BrowserOp::CloseDevTools => call@.op is CloseDevTools,
            BrowserOp::LoadUrl(url) => call@.op == BrowserOpView::LoadUrl(url@),
            BrowserOp::ExecuteJavaScript { code, script_url, start_line } => {
                &&& call@.op is ExecuteJavaScript
                &&& call@.op->code == code@
                &&& call@.op->script_url == script_url@
                &&& call@.op->start_line == start_line
            },
            BrowserOp::Reload => call@.op is Reload,
            BrowserOp::ReloadIgnoreCache => call@.op is ReloadIgnoreCache,
            BrowserOp::GoBack => call@.op is GoBack,
            BrowserOp::GoForward => call@.op is GoForward,
        },
{
}

/// A handle's call goes to the live browser of its id, as it was asked for;
/// there is none exactly where no live browser has that id.
pub proof fn lemma_handle_directs_to_its_browser(
    handle: BrowserHandle,
    registry: &BrowserRegistry,
    op: BrowserOpView,
    i: int,
)
    requires
        registry.wf(),
    ensures
        0 <= i < registry.entries@.len() && registry.entries@[i].id == handle.id ==> {
            &&& handle.is_live(registry)
            &&& handle.directed(registry, op) matches Some(call)
            &&& call.cef_id == registry.entries@[i].cef_id
            &&& call.op == op
        },
        (forall|j: int| 0 <= j < registry.entries@.len() ==> (#[trigger] registry.entries@[j]).id
            != handle.id) ==> {
            &&& !handle.is_live(registry)
            &&& handle.directed(registry, op) is None
        },
{
    let entries = registry.entries@;
    lemma_lookup_is_by_id(entries, handle.id);
    if 0 <= i < entries.len() && entries[i].id == handle.id {
        let found = browser_lookup(entries, handle.id)->0;
        let k = choose|k: int| 0 <= k < entries.len() && entries[k] == found;
        if k < i {
            assert(entries[k].id.0 < entries[i].id.0);
        } else if i < k {
            assert(entries[i].id.0 < entries[k].id.0);
        }
    }
}

} // verus!
