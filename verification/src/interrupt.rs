//! Ctrl+C, and closing everything that is open.

use crate::app_handle::{close_calls, AppHandle};
use crate::browser_handle::{BrowserCall, BrowserCallView, BrowserOpView};
use crate::browser_registry::BrowserState;
use vstd::prelude::*;

verus! {

/// What an interrupt leads to.
#[derive(Clone, Copy, Debug, PartialEq, Eq, Structural)]
pub enum InterruptAction {
    /// Post the closing of everything to the UI thread.
    ScheduleCloseAll,
    /// Nothing: shutdown is already in progress.
    Ignore,
}

/// What an interrupt leads to, given whether there was one before.
pub open spec fn interrupt_action(quitting: bool) -> InterruptAction {
    if quitting {
        InterruptAction::Ignore
    } else {
        InterruptAction::ScheduleCloseAll
    }
}

/// Acts on the first interrupt only.
#[derive(Clone, Copy, Debug, PartialEq, Eq, Structural)]
pub struct CtrlcHandler {
    pub quitting: bool,
}

/// A handler that no interrupt has reached yet.
pub fn install_ctrlc_handler() -> (handler: CtrlcHandler)
    ensures
        !handler.quitting,
{
    CtrlcHandler { quitting: false }
}

impl CtrlcHandler {
    /// An interrupt has arrived.
    pub fn on_interrupt(&mut self) -> (action: InterruptAction)
        ensures
            action == interrupt_action(old(self).quitting),
            final(self).quitting,
    {
        let was_quitting = self.quitting;
        self.quitting = true;
        if was_quitting {
            return InterruptAction::Ignore;
        }
        InterruptAction::ScheduleCloseAll
    }
}

/// How often `interrupts` interrupts schedule the closing of everything.
pub open spec fn schedules(quitting: bool, interrupts: nat) -> nat
    decreases interrupts,
{
    if interrupts == 0 {
        0
    } else {
        (if interrupt_action(quitting) == InterruptAction::ScheduleCloseAll {
            1nat
        } else {
            0nat
        }) + schedules(true, (interrupts - 1) as nat)
    }
}

/// However many interrupts arrive, closing is scheduled exactly once.
pub proof fn lemma_interrupts_schedule_once(interrupts: nat)
    requires
        interrupts > 0,
    ensures
        schedules(false, interrupts) == 1,
{
    lemma_later_interrupts_are_ignored((interrupts - 1) as nat);
}

/// After the first interrupt, further ones schedule nothing.
pub proof fn lemma_later_interrupts_are_ignored(interrupts: nat)
    ensures
        schedules(true, interrupts) == 0,
    decreases interrupts,
{
    if interrupts > 0 {
        lemma_later_interrupts_are_ignored((interrupts - 1) as nat);
    }
}

/// A step of closing everything.
#[derive(Debug, PartialEq, Eq)]
pub enum CloseStep {
    /// Close a browser. Its window goes with it.
    CloseBrowser(BrowserCall),
    /// Close the windows that are open by then.
    CloseRemainingWindows,
}

/// The mathematical value of a [`CloseStep`].
pub enum CloseStepView {
    CloseBrowser(BrowserCallView),
    CloseRemainingWindows,
}

impl View for CloseStep {
    type V = CloseStepView;

    open spec fn view(&self) -> CloseStepView {
        match self {
            CloseStep::CloseBrowser(call) => CloseStepView::CloseBrowser(call@),
            CloseStep::CloseRemainingWindows => CloseStepView::CloseRemainingWindows,
        }
    }
}

/// The values of a list of steps.
pub open spec fn steps_view(steps: Seq<CloseStep>) -> Seq<CloseStepView> {
    Seq::new(steps.len(), |i: int| steps[i]@)
}

/// Closes every one of `browsers` without force, then what windows remain.
pub open spec fn close_all_steps(browsers: Seq<BrowserState>) -> Seq<CloseStepView> {
    Seq::new(
        browsers.len() + 1,
        |i: int|
            if i < browsers.len() {
                CloseStepView::CloseBrowser(close_calls(browsers, false)[i])
            } else {
                CloseStepView::CloseRemainingWindows
            },
    )
}

/// Closes everything: all browsers first, which takes their windows along,
/// then any window that is left.
pub fn close_all_browsers_and_windows(app: &AppHandle) -> (steps: Vec<CloseStep>)
    ensures
        steps_view(steps@) == close_all_steps(app.live_browsers()),
{
    let mut calls = app.close_all_browsers(false);
    let ghost expected = close_calls(app.live_browsers(), false);
    let ghost total = calls@.len();
    let mut steps: Vec<CloseStep> = Vec::new();
    proof {
        assert(forall|j: int|
            0 <= j < calls@.len() ==> (#[trigger] calls@[j])@ == crate::app_handle::calls_view(
                calls@,
            )[j]);
    }
    while calls.len() > 0
        invariant
            total == expected.len(),
            steps@.len() + calls@.len() == total,
            forall|j: int|
                0 <= j < calls@.len() ==> (#[trigger] calls@[j])@ == expected[steps@.len() + j],
            forall|j: int|
                0 <= j < steps@.len() ==> (#[trigger] steps@[j])@ == CloseStepView::CloseBrowser(
                    expected[j],
                ),
        decreases calls@.len(),
    {
        let call = calls.remove(0);
        steps.push(CloseStep::CloseBrowser(call));
    }
    steps.push(CloseStep::CloseRemainingWindows);
    assert(steps_view(steps@) =~= close_all_steps(app.live_browsers()));
    steps
}

/// Every live browser is told to close, and all of them before any window is.
pub proof fn lemma_browsers_close_before_windows(browsers: Seq<BrowserState>)
    ensures
        close_all_steps(browsers).len() == browsers.len() + 1,
        close_all_steps(browsers).last() == CloseStepView::CloseRemainingWindows,
        forall|i: int|
            0 <= i < browsers.len() ==> #[trigger] close_all_steps(browsers)[i]
                == CloseStepView::CloseBrowser(close_calls(browsers, false)[i]),
{
}

/// The first interrupt schedules the closing, and only the first does.
pub proof fn lemma_first_interrupt_counts(quitting: bool)
    ensures
        interrupt_action(quitting) is ScheduleCloseAll <==> !quitting,
        interrupt_action(quitting) is Ignore <==> quitting,
{
}

/// Closing everything tells each live browser, in order and without force, to
/// close, and turns to the windows once, after the last of them.
pub proof fn lemma_close_all_is_gentle(browsers: Seq<BrowserState>, i: int)
    requires
        0 <= i <= browsers.len(),
    ensures
        close_all_steps(browsers).len() == browsers.len() + 1,
        i == browsers.len() ==> close_all_steps(browsers)[i] is CloseRemainingWindows,
        i < browsers.len() ==> {
            &&& close_all_steps(browsers)[i] matches CloseStepView::CloseBrowser(call)
            &&& call.cef_id == browsers[i].cef_id
            &&& call.op == BrowserOpView::CloseBrowser(0)
        },
{
}

/// The steps of a list are its steps, in the same order.
pub proof fn lemma_steps_keep_their_order(steps: Seq<CloseStep>, i: int)
    ensures
        steps_view(steps).len() == steps.len(),
        0 <= i < steps.len() ==> match steps[i] {
            CloseStep::CloseBrowser(call) => steps_view(steps)[i] == CloseStepView::CloseBrowser(
                call@,
            ),
            CloseStep::CloseRemainingWindows => steps_view(steps)[i] is CloseRemainingWindows,
        },
{
}

} // verus!
