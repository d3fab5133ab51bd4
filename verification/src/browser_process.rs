//! Browser-process lifecycle: what happens once CEF's context is up, when the
//! application is launched again, and when CEF wants its message pump run.

use crate::runtime_spec::{RuntimeMode, RuntimeSpec};
use crate::services::RuntimeServices;
use crate::window::{KuroganeWindowDelegate, WindowIdentity};
use crate::window_options::{Rect, ShowState};
use crate::window_registry::{gives_out, window_ids_in, WindowId};
use vstd::prelude::*;

verus! {

/// Where the default client comes from.
#[derive(Clone, Copy, Debug, PartialEq, Eq, Structural)]
pub enum ClientChoice {
    /// The delegate with this number provides it.
    Delegate(usize),
    /// The runtime's own client.
    Own,
}

/// What the caller has to do next once the context is up.
#[derive(Clone, Copy, Debug, PartialEq, Eq, Structural)]
pub enum ContextStage {
    /// Tell this delegate that the context is initialized.
    NotifyDelegate(usize),
    /// Register the handler of local assets in the global request context,
    /// under the names handed out, and keep it alive.
    RegisterScheme,
    /// Ask this delegate for a default client.
    AskClient(usize),
    /// Create the browser view of the start URL, with the default client.
    CreateBrowserView,
    /// Create the window with the delegate handed out.
    CreateWindow,
    /// Nothing.
    Finished,
}

/// What came of the last thing that was done.
#[derive(Clone, Copy, Debug, PartialEq, Eq, Structural)]
pub enum ContextReply {
    /// It was done.
    Done,
    /// Whether the delegate has a client.
    Client(bool),
    ViewCreated(bool),
    WindowCreated(bool),
}

/// Where the setup of the context stands, and what it has settled so far.
#[derive(Clone, Copy, Debug, PartialEq, Eq, Structural)]
pub struct ContextState {
    pub mode: RuntimeMode,
    pub has_asset_root: bool,
    /// How many delegates there are.
    pub delegates: usize,
    /// The scheme handler has been registered.
    pub scheme_registered: bool,
    /// The client for browsers that bring none of their own.
    pub default_client: Option<ClientChoice>,
    pub stage: ContextStage,
}

/// Delegates from number `i` on are still to be told; the scheme comes after them.
pub open spec fn notify_from(s: ContextState, i: int) -> ContextState {
    if i < s.delegates {
        ContextState { stage: ContextStage::NotifyDelegate(i as usize), ..s }
    } else if !s.scheme_registered && s.has_asset_root {
        ContextState { stage: ContextStage::RegisterScheme, ..s }
    } else {
        ask_from(s, 0)
    }
}

/// Delegates from number `i` on are still to be asked for a client; without
/// one from them, the runtime's own is used.
pub open spec fn ask_from(s: ContextState, i: int) -> ContextState {
    if i < s.delegates {
        ContextState { stage: ContextStage::AskClient(i as usize), ..s }
    } else {
        client_chosen(s, ClientChoice::Own)
    }
}

/// The default client is settled. Embedded, the host creates the windows, and
/// that is all.
pub open spec fn client_chosen(s: ContextState, client: ClientChoice) -> ContextState {
    ContextState {
        default_client: Some(client),
        stage: match s.mode {
            RuntimeMode::Embedded => ContextStage::Finished,
            RuntimeMode::Views => ContextStage::CreateBrowserView,
        },
        ..s
    }
}

/// Where `reply` takes the setup. A reply to another question changes nothing.
pub open spec fn context_next(s: ContextState, reply: ContextReply) -> ContextState {
    match (s.stage, reply) {
        (ContextStage::NotifyDelegate(i), ContextReply::Done) => notify_from(s, i + 1),
        (ContextStage::RegisterScheme, ContextReply::Done) => ask_from(
            ContextState { scheme_registered: true, ..s },
            0,
        ),
        (ContextStage::AskClient(i), ContextReply::Client(given)) => if given {
            client_chosen(s, ClientChoice::Delegate(i))
        } else {
            ask_from(s, i + 1)
        },
        (ContextStage::CreateBrowserView, ContextReply::ViewCreated(created)) => ContextState {
            stage: if created {
                ContextStage::CreateWindow
            } else {
                ContextStage::Finished
            },
            ..s
        },
        (ContextStage::CreateWindow, ContextReply::WindowCreated(_)) => ContextState {
            stage: ContextStage::Finished,
            ..s
        },
        _ => s,
    }
}

impl ContextState {
    /// Stages come up only where they are called for.
    pub open spec fn wf(self) -> bool {
        match self.stage {
            ContextStage::NotifyDelegate(i) => i < self.delegates,
            ContextStage::AskClient(i) => i < self.delegates,
            ContextStage::RegisterScheme => self.has_asset_root && !self.scheme_registered,
            ContextStage::CreateBrowserView => self.mode == RuntimeMode::Views
                && self.default_client is Some,
            ContextStage::CreateWindow => self.mode == RuntimeMode::Views
                && self.default_client is Some,
            ContextStage::Finished => true,
        }
    }

    fn notified(self, i: usize) -> (next: ContextState)
        ensures
            next == notify_from(self, i as int),
    {
        let mut next = self;
        if i < self.delegates {
            next.stage = ContextStage::NotifyDelegate(i);
            next
        } else if !self.scheme_registered && self.has_asset_root {
            next.stage = ContextStage::RegisterScheme;
            next
        } else {
            self.asked(0)
        }
    }

    fn asked(self, i: usize) -> (next: ContextState)
        ensures
            next == ask_from(self, i as int),
    {
        if i < self.delegates {
            let mut next = self;
            next.stage = ContextStage::AskClient(i);
            next
        } else {
            self.chosen(ClientChoice::Own)
        }
    }

    fn chosen(self, client: ClientChoice) -> (next: ContextState)
        ensures
            next == client_chosen(self, client),
    {
        let mut next = self;
        next.default_client = Some(client);
        next.stage = match self.mode {
            RuntimeMode::Embedded => ContextStage::Finished,
            RuntimeMode::Views => ContextStage::CreateBrowserView,
        };
        next
    }
}

/// The names under which local assets are served: with these two, below
/// `app://app/`.
#[derive(Debug, PartialEq, Eq)]
pub struct SchemeName {
    pub scheme: String,
    pub domain: String,
}

/// What to do besides the next stage.
#[derive(Debug, PartialEq, Eq)]
pub enum ContextAction {
    /// Nothing more.
    Proceed,
    /// Create the window with this delegate.
    CreateWindow(KuroganeWindowDelegate),
    /// Tell the user, on standard error, that no window will appear.
    Report(String),
}

/// What the user is told when CEF creates no browser view.
pub open spec fn view_failure() -> Seq<char> {
    "kurogane: browser_view_create failed; no window will appear"@
}

/// What the user is told when CEF creates no window.
pub open spec fn window_failure() -> Seq<char> {
    "kurogane: window_create_top_level failed; no window will appear"@
}

/// The browser-process handler: the parts of the startup intent that it acts
/// on, and how far it has come.
#[derive(Debug)]
pub struct KuroganeBrowserProcessHandler {
    pub start_url: String,
    pub window_identity: WindowIdentity,
    pub has_scheduler: bool,
    pub state: ContextState,
}

impl KuroganeBrowserProcessHandler {
    /// A handler for `spec` whose context is not up yet.
    pub fn new(spec: &RuntimeSpec) -> (handler: KuroganeBrowserProcessHandler)
        ensures
            handler.start_url@ == spec.start_url@,
            handler.window_identity@ == spec.window_identity@,
            handler.has_scheduler == spec.has_scheduler,
            handler.state == (ContextState {
                mode: spec.mode,
                has_asset_root: spec.has_asset_root,
                delegates: spec.delegates,
                scheme_registered: false,
                default_client: None,
                stage: ContextStage::Finished,
            }),
            handler.state.wf(),
    {
        KuroganeBrowserProcessHandler {
            start_url: spec.start_url.clone(),
            window_identity: spec.window_identity.clone(),
            has_scheduler: spec.has_scheduler,
            state: ContextState {
                mode: spec.mode,
                has_asset_root: spec.has_asset_root,
                delegates: spec.delegates,
                scheme_registered: false,
                default_client: None,
                stage: ContextStage::Finished,
            },
        }
    }

    /// Only the state has changed.
    pub open spec fn same_intent(&self, other: &KuroganeBrowserProcessHandler) -> bool {
        &&& self.start_url == other.start_url
        &&& self.window_identity == other.window_identity
        &&& self.has_scheduler == other.has_scheduler
    }

    /// The context is up: sets out on what follows. CEF may say so more than once.
    pub fn on_context_initialized(&mut self)
        ensures
            final(self).same_intent(old(self)),
            final(self).start_url == old(self).start_url,
            final(self).window_identity == old(self).window_identity,
            final(self).has_scheduler == old(self).has_scheduler,
            final(self).state == notify_from(old(self).state, 0),
            final(self).state.wf(),
    {
        self.state = self.state.notified(0);
    }

    /// The names to register the handler of local assets under, when that is next.
    pub fn scheme(&self) -> (name: Option<SchemeName>)
        ensures
            name is Some <==> self.state.stage == ContextStage::RegisterScheme,
            name matches Some(n) ==> n.scheme@ == "app"@ && n.domain@ == "app"@,
    {
        match self.state.stage {
            ContextStage::RegisterScheme => Some(
                SchemeName { scheme: "app".to_owned(), domain: "app".to_owned() },
            ),
            _ => None,
        }
    }

    /// Takes in what came of the last thing that was done.
    pub fn step(&mut self, services: &mut RuntimeServices, reply: ContextReply) -> (action:
        ContextAction)
        requires
            old(self).state.wf(),
            old(services).wf(),
            reply == ContextReply::ViewCreated(true)
                ==> old(services).window_registry.next_id < u64::MAX,
        ensures
            final(self).same_intent(old(self)),
            final(self).start_url == old(self).start_url,
            final(self).window_identity == old(self).window_identity,
            final(self).has_scheduler == old(self).has_scheduler,
            final(self).state == context_next(old(self).state, reply),
            final(self).state.wf(),
            final(services).wf(),
            final(services).shutdown_signal == old(services).shutdown_signal,
            final(services).browser_registry == old(services).browser_registry,
            final(services).window_registry.entries@ == old(services).window_registry.entries@,
            match (old(self).state.stage, reply) {
                (ContextStage::CreateBrowserView, ContextReply::ViewCreated(true)) => {
                    &&& action matches ContextAction::CreateWindow(delegate)
                    &&& delegate.initial_bounds == (Rect { x: 0, y: 0, width: 0, height: 0 })
                    &&& delegate.show_state == ShowState::Normal
                    &&& delegate.identity@ == old(self).window_identity@
                    &&& gives_out(
                        old(services).window_registry.next_id,
                        final(services).window_registry.next_id,
                        Some(delegate.window_id),
                    )
                },
                (ContextStage::CreateBrowserView, ContextReply::ViewCreated(false)) => {
                    &&& action matches ContextAction::Report(text)
                    &&& text@ == view_failure()
                    &&& text@ == "kurogane: browser_view_create failed; no window will appear"@
                    &&& gives_out(
                        old(services).window_registry.next_id,
                        final(services).window_registry.next_id,
                        None,
                    )
                },
                (ContextStage::CreateWindow, ContextReply::WindowCreated(false)) => {
                    &&& action matches ContextAction::Report(text)
                    &&& text@ == window_failure()
                    &&& text@ == "kurogane: window_create_top_level failed; no window will appear"@
                    &&& gives_out(
                        old(services).window_registry.next_id,
                        final(services).window_registry.next_id,
                        None,
                    )
                },
                _ => {
                    &&& action is Proceed
                    &&& gives_out(
                        old(services).window_registry.next_id,
                        final(services).window_registry.next_id,
                        None,
                    )
                },
            },
    {
        match (self.state.stage, reply) {
            (ContextStage::NotifyDelegate(i), ContextReply::Done) => {
                self.state = self.state.notified(i + 1);
                ContextAction::Proceed
            },
            (ContextStage::RegisterScheme, ContextReply::Done) => {
                let mut registered = self.state;
                registered.scheme_registered = true;
                self.state = registered.asked(0);
                ContextAction::Proceed
            },
            (ContextStage::AskClient(i), ContextReply::Client(given)) => {
                self.state = if given {
                    self.state.chosen(ClientChoice::Delegate(i))
                } else {
                    self.state.asked(i + 1)
                };
                ContextAction::Proceed
            },
            (ContextStage::CreateBrowserView, ContextReply::ViewCreated(created)) => {
                if created {
                    self.state.stage = ContextStage::CreateWindow;
                    let window_id = services.window_registry.allocate_id();
                    ContextAction::CreateWindow(
                        KuroganeWindowDelegate {
                            window_id,
                            initial_bounds: Rect::default(),
                            show_state: ShowState::Normal,
                            identity: self.window_identity.clone(),
                        },
                    )
                } else {
                    self.state.stage = ContextStage::Finished;
                    ContextAction::Report(
                        "kurogane: browser_view_create failed; no window will appear".to_owned(),
                    )
                }
            },
            (ContextStage::CreateWindow, ContextReply::WindowCreated(created)) => {
                self.state.stage = ContextStage::Finished;
                if created {
                    ContextAction::Proceed
                } else {
                    ContextAction::Report(
                        "kurogane: window_create_top_level failed; no window will appear".to_owned(),
                    )
                }
            },
            _ => ContextAction::Proceed,
        }
    }

    /// The client that was settled when the context came up.
    pub fn default_client(&self) -> (client: Option<ClientChoice>)
        ensures
            client == self.state.default_client,
    {
        self.state.default_client
    }

    /// When CEF wants its message pump run, if the host schedules that: at
    /// once, or after a delay.
    pub fn on_schedule_message_pump_work(&self, delay_ms: i64) -> (request: Option<PumpRequest>)
        ensures
            request == (if !self.has_scheduler {
                None
            } else if delay_ms <= 0 {
                Some(PumpRequest::Now)
            } else {
                Some(PumpRequest::After(delay_ms as u64))
            }),
    {
        if !self.has_scheduler {
            return None;
        }
        if delay_ms <= 0 {
            Some(PumpRequest::Now)
        } else {
            Some(PumpRequest::After(delay_ms as u64))
        }
    }
}

/// When to run the message pump.
#[derive(Clone, Copy, Debug, PartialEq, Eq, Structural)]
pub enum PumpRequest {
    Now,
    /// After this many milliseconds.
    After(u64),
}

/// Something to be done to a window to bring it before the user.
#[derive(Clone, Copy, Debug, PartialEq, Eq, Structural)]
pub enum RaiseOp {
    Restore,
    Show,
    Activate,
}

/// A second launch on this profile: the windows to raise, in order, and what
/// CEF is told, namely that the launch has been dealt with.
pub fn on_already_running_app_relaunch(services: &RuntimeServices) -> (relaunch: (
    Vec<WindowId>,
    i32,
))
    ensures
        relaunch.0@ == window_ids_in(services.window_registry.entries@),
        relaunch.1 == 1,
{
    (services.window_registry.ids(), 1)
}

/// What brings a window before the user, in order; `is_minimized` is what CEF
/// says of it.
pub fn raise_window(is_minimized: i32) -> (ops: Vec<RaiseOp>)
    ensures
        ops@ == (if is_minimized != 0 {
            seq![RaiseOp::Restore, RaiseOp::Show, RaiseOp::Activate]
        } else {
            seq![RaiseOp::Show, RaiseOp::Activate]
        }),
{
    let mut ops: Vec<RaiseOp> = Vec::new();
    if is_minimized != 0 {
        ops.push(RaiseOp::Restore);
    }
    ops.push(RaiseOp::Show);
    ops.push(RaiseOp::Activate);
    assert(ops@ =~= if is_minimized != 0 {
        seq![RaiseOp::Restore, RaiseOp::Show, RaiseOp::Activate]
    } else {
        seq![RaiseOp::Show, RaiseOp::Activate]
    });
    ops
}

/// The setup after the delegates from number `i` on have been asked for a
/// client, `answers` saying which of them have one.
pub open spec fn ask_all(s: ContextState, answers: Seq<bool>, i: int) -> ContextState
    decreases answers.len() - i,
{
    match s.stage {
        ContextStage::AskClient(k) => if i < answers.len() {
            ask_all(context_next(s, ContextReply::Client(answers[i])), answers, i + 1)
        } else {
            s
        },
        _ => s,
    }
}

/// The first of the delegates from number `i` on that has a client.
pub open spec fn first_client(answers: Seq<bool>, i: int) -> ClientChoice
    decreases answers.len() - i,
{
    if i >= answers.len() {
        ClientChoice::Own
    } else if answers[i] {
        ClientChoice::Delegate(i as usize)
    } else {
        first_client(answers, i + 1)
    }
}

/// The first delegate that has a client provides the default client; without
/// one, the runtime's own client is the default.
pub proof fn lemma_first_client_wins(s: ContextState, answers: Seq<bool>, i: int)
    requires
        0 <= i,
        answers.len() == s.delegates,
    ensures
        ask_all(ask_from(s, i), answers, i) == client_chosen(s, first_client(answers, i)),
    decreases answers.len() - i,
{
    if i < answers.len() {
        let asked = ask_from(s, i);
        if answers[i] {
            let next = context_next(asked, ContextReply::Client(true));
            assert(next == client_chosen(s, ClientChoice::Delegate(i as usize)));
            assert(ask_all(next, answers, i + 1) == next);
        } else {
            let next = context_next(asked, ContextReply::Client(false));
            assert(next == ask_from(s, i + 1));
            lemma_first_client_wins(s, answers, i + 1);
        }
    }
}

/// Embedded, neither a browser view nor a window is ever asked for.
pub proof fn lemma_embedded_opens_no_window(s: ContextState, reply: ContextReply)
    requires
        s.wf(),
        s.mode == RuntimeMode::Embedded,
    ensures
        notify_from(s, 0).mode == RuntimeMode::Embedded,
        notify_from(s, 0).stage != ContextStage::CreateBrowserView,
        notify_from(s, 0).stage != ContextStage::CreateWindow,
        context_next(s, reply).mode == RuntimeMode::Embedded,
        context_next(s, reply).stage != ContextStage::CreateBrowserView,
        context_next(s, reply).stage != ContextStage::CreateWindow,
{
}

/// The scheme is registered once and for all: having been registered it stays
/// so, and its registration does not come up again, however often the context
/// is announced and whatever the replies.
pub proof fn lemma_scheme_registers_once(s: ContextState, reply: ContextReply)
    requires
        s.wf(),
        s.scheme_registered,
    ensures
        notify_from(s, 0).scheme_registered,
        notify_from(s, 0).stage != ContextStage::RegisterScheme,
        context_next(s, reply).scheme_registered,
        context_next(s, reply).stage != ContextStage::RegisterScheme,
{
}

/// Without local assets the scheme is never registered.
pub proof fn lemma_no_assets_no_scheme(s: ContextState, reply: ContextReply)
    requires
        s.wf(),
        !s.has_asset_root,
        !s.scheme_registered,
    ensures
        notify_from(s, 0).stage != ContextStage::RegisterScheme,
        !notify_from(s, 0).scheme_registered,
        context_next(s, reply).stage != ContextStage::RegisterScheme,
        !context_next(s, reply).scheme_registered,
{
}

/// What is fixed from the start stays so, whatever the replies.
pub open spec fn same_setup(s: ContextState, other: ContextState) -> bool {
    &&& s.mode == other.mode
    &&& s.has_asset_root == other.has_asset_root
    &&& s.delegates == other.delegates
}

/// Once the delegates have been told, the scheme comes next where there are
/// assets to serve and it is not registered yet; otherwise the first delegate
/// is asked for a client, and without delegates the runtime's own is the default.
pub proof fn lemma_after_the_delegates(s: ContextState, i: int)
    requires
        i >= s.delegates,
    ensures
        ({
            let next = notify_from(s, i);
            &&& same_setup(next, s)
            &&& next.scheme_registered == s.scheme_registered
            &&& if s.has_asset_root && !s.scheme_registered {
                next.stage == ContextStage::RegisterScheme && next.default_client
                    == s.default_client
            } else if s.delegates > 0 {
                next.stage == ContextStage::AskClient(0) && next.default_client
                    == s.default_client
            } else {
                &&& next.default_client == Some(ClientChoice::Own)
                &&& next.stage == ContextStage::CreateBrowserView <==> s.mode
                    == RuntimeMode::Views
                &&& next.stage == ContextStage::Finished <==> s.mode == RuntimeMode::Embedded
            }
        }),
{
}

/// What follows each reply. Delegates are told one after the other; then comes
/// the scheme, if it is due; then they are asked for a client one after the
/// other until one has it; then, unless the host creates the windows, the
/// browser view and its window. A reply to another question changes nothing.
pub proof fn lemma_setup_goes_on(s: ContextState, reply: ContextReply)
    ensures
        ({
            let next = context_next(s, reply);
            let opens = if s.mode == RuntimeMode::Views {
                ContextStage::CreateBrowserView
            } else {
                ContextStage::Finished
            };
            &&& same_setup(next, s)
            &&& match (s.stage, reply) {
                (ContextStage::NotifyDelegate(i), ContextReply::Done) => {
                    &&& next.scheme_registered == s.scheme_registered
                    &&& i + 1 < s.delegates ==> next.stage == ContextStage::NotifyDelegate(
                        (i + 1) as usize,
                    ) && next.default_client == s.default_client
                    &&& i + 1 >= s.delegates && s.has_asset_root && !s.scheme_registered
                        ==> next.stage == ContextStage::RegisterScheme
                    &&& i + 1 >= s.delegates && (!s.has_asset_root || s.scheme_registered)
                        && s.delegates > 0 ==> next.stage == ContextStage::AskClient(0)
                },
                (ContextStage::RegisterScheme, ContextReply::Done) => {
                    &&& next.scheme_registered
                    &&& s.delegates > 0 ==> next.stage == ContextStage::AskClient(0)
                        && next.default_client == s.default_client
                    &&& s.delegates == 0 ==> next.stage == opens && next.default_client == Some(
                        ClientChoice::Own,
                    )
                },
                (ContextStage::AskClient(i), ContextReply::Client(given)) => {
                    &&& next.scheme_registered == s.scheme_registered
                    &&& given ==> next.stage == opens && next.default_client == Some(
                        ClientChoice::Delegate(i),
                    )
                    &&& !given && i + 1 < s.delegates ==> next.stage == ContextStage::AskClient(
                        (i + 1) as usize,
                    ) && next.default_client == s.default_client
                    &&& !given && i + 1 >= s.delegates ==> next.stage == opens
                        && next.default_client == Some(ClientChoice::Own)
                },
                (ContextStage::CreateBrowserView, ContextReply::ViewCreated(created)) => {
                    &&& next.scheme_registered == s.scheme_registered
                    &&& next.default_client == s.default_client
                    &&& created ==> next.stage == ContextStage::CreateWindow
                    &&& !created ==> next.stage == ContextStage::Finished
                },
                (ContextStage::CreateWindow, ContextReply::WindowCreated(_)) => {
                    &&& next.scheme_registered == s.scheme_registered
                    &&& next.default_client == s.default_client
                    &&& next.stage == ContextStage::Finished
                },
                _ => next == s,
            }
        }),
{
}

/// The setup after `replies`, one after the other.
pub open spec fn context_run(s: ContextState, replies: Seq<ContextReply>) -> ContextState
    decreases replies.len(),
{
    if replies.len() == 0 {
        s
    } else {
        context_next(context_run(s, replies.drop_last()), replies.last())
    }
}

/// Local assets are served before anything can ask for them. With assets and
/// the scheme not yet registered, in either mode and with any number of
/// delegates, whatever the replies: the setup asks no delegate for a client,
/// creates no browser view or window and does not end before the scheme has
/// come up for registration and been registered.
pub proof fn lemma_assets_are_served_before_use(s: ContextState, replies: Seq<ContextReply>)
    requires
        s.has_asset_root,
        !s.scheme_registered,
    ensures
        ({
            let begun = notify_from(s, 0);
            let now = context_run(begun, replies);
            &&& same_setup(now, s)
            &&& now.scheme_registered || now.stage is NotifyDelegate || now.stage
                == ContextStage::RegisterScheme
            &&& now.scheme_registered ==> exists|n: int|
                0 <= n < replies.len() && context_run(
                    begun,
                    #[trigger] replies.take(n),
                ).stage == ContextStage::RegisterScheme && replies[n] == ContextReply::Done
        }),
    decreases replies.len(),
{
    let begun = notify_from(s, 0);
    if replies.len() > 0 {
        let front = replies.drop_last();
        let before = context_run(begun, front);
        lemma_assets_are_served_before_use(s, front);
        let last = replies.len() - 1;
        assert(replies.take(last) =~= front);
        if before.scheme_registered {
            let n = choose|n: int|
                0 <= n < front.len() && context_run(begun, #[trigger] front.take(n)).stage
                    == ContextStage::RegisterScheme && front[n] == ContextReply::Done;
            assert(replies.take(n) =~= front.take(n));
            assert(replies[n] == front[n]);
        } else if context_run(begun, replies).scheme_registered {
            assert(context_run(begun, replies.take(last)).stage == ContextStage::RegisterScheme);
            assert(replies[last] == ContextReply::Done);
        }
    }
}

/// Every delegate is told, in order, before anything else happens, and what
/// comes next is the scheme wherever there are assets and it is not registered.
pub proof fn lemma_delegates_are_told_first(s: ContextState, told: nat)
    requires
        told <= s.delegates,
    ensures
        ({
            let now = context_run(
                notify_from(s, 0),
                Seq::new(told, |i: int| ContextReply::Done),
            );
            &&& told < s.delegates ==> now.stage == ContextStage::NotifyDelegate(told as usize)
            &&& told == s.delegates && s.has_asset_root && !s.scheme_registered ==> now.stage
                == ContextStage::RegisterScheme
            &&& told == s.delegates ==> now == notify_from(s, told as int)
            &&& now.scheme_registered == s.scheme_registered
            &&& same_setup(now, s)
        }),
    decreases told,
{
    let replies = Seq::new(told, |i: int| ContextReply::Done);
    if told == 0 {
        assert(context_run(notify_from(s, 0), replies) == notify_from(s, 0));
    } else {
        let before = (told - 1) as nat;
        let front = Seq::new(before, |i: int| ContextReply::Done);
        assert(replies.drop_last() =~= front);
        lemma_delegates_are_told_first(s, before);
        lemma_told_so_far(s, before);
        assert(replies.last() == ContextReply::Done);
        assert(context_run(notify_from(s, 0), replies) == notify_from(s, told as int));
    }
}

proof fn lemma_told_so_far(s: ContextState, told: nat)
    requires
        told < s.delegates,
    ensures
        context_run(notify_from(s, 0), Seq::new(told, |i: int| ContextReply::Done)) == (
        ContextState { stage: ContextStage::NotifyDelegate(told as usize), ..s }),
    decreases told,
{
    let replies = Seq::new(told, |i: int| ContextReply::Done);
    if told > 0 {
        let before = (told - 1) as nat;
        assert(replies.drop_last() =~= Seq::new(before, |i: int| ContextReply::Done));
        lemma_told_so_far(s, before);
        assert(replies.last() == ContextReply::Done);
    }
}

/// The default client comes from a delegate that has one and before which none
/// has; it is the runtime's own exactly when none has.
pub proof fn lemma_first_client_is_first(answers: Seq<bool>, i: int)
    requires
        0 <= i,
        answers.len() <= usize::MAX,
    ensures
        first_client(answers, i) matches ClientChoice::Delegate(k) ==> {
            &&& i <= k < answers.len()
            &&& answers[k as int]
            &&& forall|j: int| i <= j < k ==> !answers[j]
        },
        first_client(answers, i) == ClientChoice::Own <==> forall|j: int|
            i <= j < answers.len() ==> !answers[j],
    decreases answers.len() - i,
{
    if i < answers.len() && !answers[i] {
        lemma_first_client_is_first(answers, i + 1);
    }
}

} // verus!
