//! The shared state of a running runtime.

use crate::browser_registry::{
    id_of_cef, without_browser, BrowserId, BrowserMetadata, BrowserRegistry, BrowserState,
    BrowserType,
};
use crate::window_registry::{gives_out, with_browser, WindowId, WindowRegistry};
use vstd::prelude::*;

verus! {

/// Whether shutdown has been asked for. Once asked for, it stays asked for.
#[derive(Clone, Copy, Debug, PartialEq, Eq, Structural)]
pub struct ShutdownSignal {
    pub requested: bool,
}

impl ShutdownSignal {
    pub fn new() -> (signal: ShutdownSignal)
        ensures
            !signal.requested,
    {
        ShutdownSignal { requested: false }
    }

    pub fn request_shutdown(&mut self)
        ensures
            final(self).requested,
    {
        self.requested = true;
    }

    pub fn is_shutdown_requested(&self) -> (requested: bool)
        ensures
            requested == self.requested,
    {
        self.requested
    }
}

/// The registries and the shutdown signal that handlers and delegates share.
pub struct RuntimeServices {
    pub shutdown_signal: ShutdownSignal,
    pub browser_registry: BrowserRegistry,
    pub window_registry: WindowRegistry,
}

impl RuntimeServices {
    pub open spec fn wf(&self) -> bool {
        self.browser_registry.wf() && self.window_registry.wf()
    }

    /// No browsers, no windows, no shutdown asked for.
    pub fn new() -> (services: RuntimeServices)
        ensures
            services.wf(),
            !services.shutdown_signal.requested,
            services.browser_registry.entries@.len() == 0,
            services.browser_registry.next_id == 0,
            services.window_registry.entries@.len() == 0,
            services.window_registry.next_id == 0,
    {
        RuntimeServices {
            shutdown_signal: ShutdownSignal::new(),
            browser_registry: BrowserRegistry::new(),
            window_registry: WindowRegistry::new(),
        }
    }

    /// The live browsers, and whether shutdown has been asked for.
    pub open spec fn liveness(&self) -> Liveness {
        Liveness {
            browsers: self.browser_registry.entries@,
            shutdown_requested: self.shutdown_signal.requested,
        }
    }

    /// CEF has announced a browser. One that is registered keeps its id, any
    /// other is registered as one of the application's own. The window that
    /// hosts it, if known, is linked to it.
    pub fn browser_created(&mut self, cef_id: i32, window: Option<WindowId>) -> (id: BrowserId)
        requires
            old(self).wf(),
            id_of_cef(old(self).browser_registry.entries@, cef_id) is None
                ==> old(self).browser_registry.next_id < u64::MAX,
        ensures
            final(self).wf(),
            match id_of_cef(old(self).browser_registry.entries@, cef_id) {
                Some(known) => {
                    &&& id == known
                    &&& final(self).browser_registry == old(self).browser_registry
                    &&& final(self).shutdown_signal == old(self).shutdown_signal
                },
                None => {
                    &&& id == BrowserId(old(self).browser_registry.next_id)
                    &&& final(self).browser_registry.next_id == id.0 + 1
                    &&& final(self).shutdown_signal == old(self).shutdown_signal
                    &&& final(self).browser_registry.entries@.len() == old(self).browser_registry.entries@.len() + 1
                    &&& final(self).browser_registry.entries@.drop_last() == old(self).browser_registry.entries@
                    &&& final(self).browser_registry.entries@.last().id == id
                    &&& final(self).browser_registry.entries@.last().cef_id == cef_id
                    &&& final(self).browser_registry.entries@.last().metadata.browser_type
                        == BrowserType::Main
                    &&& final(self).browser_registry.entries@.last().metadata.parent is None
                    &&& final(self).browser_registry.entries@.last().metadata.opener is None
                    &&& final(self).liveness() == life_next(
                        old(self).liveness(),
                        LifeEvent::Opened(main_state(id, cef_id)),
                    )
                },
            },
            gives_out(
                old(self).window_registry.next_id,
                final(self).window_registry.next_id,
                None,
            ),
            final(self).window_registry.entries@ == (match window {
                Some(host) => with_browser(old(self).window_registry.entries@, host, Some(id)),
                None => old(self).window_registry.entries@,
            }),
    {
        let id = match self.browser_registry.find_id_by_cef_id(cef_id) {
            Some(known) => known,
            None => self.browser_registry.register(cef_id, BrowserType::Main, None),
        };
        assert(id_of_cef(old(self).browser_registry.entries@, cef_id) is None
            ==> self.browser_registry.entries@.drop_last() =~= old(self).browser_registry.entries@);
        match window {
            Some(host) => {
                self.window_registry.link_browser(host, id);
            },
            None => {},
        }
        id
    }

    /// Drops a browser that has closed. When none is left, the application is
    /// done and shutdown is asked for.
    pub fn browser_closed(&mut self, id: BrowserId)
        requires
            old(self).wf(),
        ensures
            final(self).wf(),
            final(self).liveness() == life_next(old(self).liveness(), LifeEvent::Closed(id)),
            final(self).browser_registry.entries@ == without_browser(
                old(self).browser_registry.entries@,
                id,
            ),
            final(self).shutdown_signal.requested <==> (old(self).shutdown_signal.requested
                || final(self).browser_registry.entries@.len() == 0),
            final(self).browser_registry.next_id == old(self).browser_registry.next_id,
            final(self).window_registry == old(self).window_registry,
    {
        self.browser_registry.unregister(id);
        if self.browser_registry.count() == 0 {
            self.shutdown_signal.request_shutdown();
        }
    }
}

/// The live browsers, and whether shutdown has been asked for.
#[verifier::ext_equal]
pub struct Liveness {
    pub browsers: Seq<BrowserState>,
    pub shutdown_requested: bool,
}

/// What is recorded of a browser that the application opened itself.
pub open spec fn main_state(id: BrowserId, cef_id: i32) -> BrowserState {
    BrowserState {
        id,
        cef_id,
        metadata: BrowserMetadata {
            browser_type: BrowserType::Main,
            parent: None,
            opener: None,
        },
    }
}

/// Something that bears on whether the application goes on.
pub enum LifeEvent {
    /// Shutdown is asked for.
    Requested,
    /// A browser is registered.
    Opened(BrowserState),
    /// A browser has closed.
    Closed(BrowserId),
}

/// What `event` leads to. Shutdown is asked for by asking, and by a closing
/// that leaves no browser.
pub open spec fn life_next(now: Liveness, event: LifeEvent) -> Liveness {
    match event {
        LifeEvent::Requested => Liveness { shutdown_requested: true, ..now },
        LifeEvent::Opened(state) => Liveness { browsers: now.browsers.push(state), ..now },
        LifeEvent::Closed(id) => {
            let left = without_browser(now.browsers, id);
            Liveness {
                browsers: left,
                shutdown_requested: now.shutdown_requested || left.len() == 0,
            }
        },
    }
}

/// What `events` lead to, one after the other.
pub open spec fn after_events(now: Liveness, events: Seq<LifeEvent>) -> Liveness
    decreases events.len(),
{
    if events.len() == 0 {
        now
    } else {
        life_next(after_events(now, events.drop_last()), events.last())
    }
}

/// Shutdown that has been asked for stays asked for, whatever happens.
pub proof fn lemma_shutdown_request_stays(now: Liveness, events: Seq<LifeEvent>)
    requires
        now.shutdown_requested,
    ensures
        after_events(now, events).shutdown_requested,
    decreases events.len(),
{
    if events.len() > 0 {
        lemma_shutdown_request_stays(now, events.drop_last());
    }
}

/// Asking for shutdown is seen from then on, whatever else happens.
pub proof fn lemma_requested_shutdown_is_seen(now: Liveness, events: Seq<LifeEvent>)
    requires
        events.contains(LifeEvent::Requested),
    ensures
        after_events(now, events).shutdown_requested,
    decreases events.len(),
{
    let i = choose|i: int| 0 <= i < events.len() && events[i] == LifeEvent::Requested;
    if i < events.len() - 1 {
        assert(events.drop_last()[i] == LifeEvent::Requested);
        lemma_requested_shutdown_is_seen(now, events.drop_last());
    }
}

/// Whenever something has happened and no browser is live, shutdown has been
/// asked for.
pub proof fn lemma_no_browser_means_shutdown(now: Liveness, events: Seq<LifeEvent>)
    requires
        events.len() > 0,
        after_events(now, events).browsers.len() == 0,
    ensures
        after_events(now, events).shutdown_requested,
{
}

/// The browsers of `closed` closing, one after the other.
pub open spec fn closings(closed: Seq<BrowserId>) -> Seq<LifeEvent> {
    Seq::new(closed.len(), |i: int| LifeEvent::Closed(closed[i]))
}

/// Once every live browser has closed, in whatever order, shutdown has been
/// asked for. This is how closing the last window, or an interrupt, ends the
/// application.
pub proof fn lemma_last_browser_ends_application(now: Liveness, closed: Seq<BrowserId>)
    requires
        closed.len() > 0,
        forall|i: int|
            0 <= i < now.browsers.len() ==> closed.contains((#[trigger] now.browsers[i]).id),
    ensures
        after_events(now, closings(closed)).browsers.len() == 0,
        after_events(now, closings(closed)).shutdown_requested,
{
    let end = after_events(now, closings(closed));
    lemma_closed_are_gone(now, closed);
    if end.browsers.len() > 0 {
        let s = end.browsers[0];
        assert(end.browsers.contains(s));
        let i = choose|i: int| 0 <= i < now.browsers.len() && now.browsers[i] == s;
        assert(closed.contains(now.browsers[i].id));
    }
    lemma_no_browser_means_shutdown(now, closings(closed));
}

/// What is live after some closings was live before and is none of the closed.
proof fn lemma_closed_are_gone(now: Liveness, closed: Seq<BrowserId>)
    ensures
        forall|s: BrowserState| #[trigger]
            after_events(now, closings(closed)).browsers.contains(s) ==> now.browsers.contains(s)
                && !closed.contains(s.id),
    decreases closed.len(),
{
    if closed.len() > 0 {
        broadcast use vstd::seq_lib::group_filter_ensures;

        let front = closed.drop_last();
        let id = closed.last();
        let before = after_events(now, closings(front)).browsers;
        let keep = |s: BrowserState| s.id != id;
        assert(closings(closed).drop_last() =~= closings(front));
        lemma_closed_are_gone(now, front);
        let left = after_events(now, closings(closed)).browsers;
        assert(left == before.filter(keep));
        assert forall|s: BrowserState| #[trigger] left.contains(s) implies now.browsers.contains(s)
            && !closed.contains(s.id) by {
            before.lemma_filter_contains_rev(keep, s);
            let k = choose|k: int| 0 <= k < left.len() && left[k] == s;
            assert(keep(left[k]));
            assert(before.contains(s));
            if closed.contains(s.id) {
                let j = choose|j: int| 0 <= j < closed.len() && closed[j] == s.id;
                if j < front.len() {
                    assert(front[j] == s.id);
                }
            }
        }
    } else {
        assert(closings(closed) =~= Seq::empty());
    }
}

/// What is observed of the services is what they hold.
pub proof fn lemma_liveness_is_faithful(services: &RuntimeServices)
    ensures
        services.liveness().browsers == services.browser_registry.entries@,
        services.liveness().shutdown_requested == services.shutdown_signal.requested,
{
}

/// Shutdown is asked for only with cause: by asking, or by a closing that
/// leaves no browser. An opening adds one browser and a closing takes away
/// those of one id, and nothing else changes which browsers are live.
pub proof fn lemma_shutdown_has_a_cause(now: Liveness, event: LifeEvent)
    ensures
        ({
            let next = life_next(now, event);
            &&& now.shutdown_requested ==> next.shutdown_requested
            &&& !now.shutdown_requested ==> (next.shutdown_requested <==> (event is Requested || (
            event is Closed && next.browsers.len() == 0)))
            &&& match event {
                LifeEvent::Requested => next.browsers == now.browsers,
                LifeEvent::Opened(state) => {
                    &&& next.browsers.len() == now.browsers.len() + 1
                    &&& next.browsers.last() == state
                    &&& next.browsers.drop_last() == now.browsers
                },
                LifeEvent::Closed(id) => forall|s: BrowserState| #[trigger]
                    next.browsers.contains(s) <==> (now.browsers.contains(s) && s.id != id),
            }
        }),
{
    match event {
        LifeEvent::Opened(state) => {
            assert(now.browsers.push(state).drop_last() =~= now.browsers);
        },
        LifeEvent::Closed(id) => {
            broadcast use vstd::seq_lib::group_filter_ensures;

            let keep = |s: BrowserState| s.id != id;
            let left = now.browsers.filter(keep);
            assert forall|s: BrowserState| #[trigger] left.contains(s) <==> (now.browsers.contains(s)
                && s.id != id) by {
                if left.contains(s) {
                    let k = choose|k: int| 0 <= k < left.len() && left[k] == s;
                    assert(keep(left[k]));
                    now.browsers.lemma_filter_contains_rev(keep, s);
                }
                if now.browsers.contains(s) && s.id != id {
                    let k = choose|k: int| 0 <= k < now.browsers.len() && now.browsers[k] == s;
                    assert(keep(now.browsers[k]));
                    now.browsers.lemma_filter_contains(keep, k);
                }
            }
        },
        LifeEvent::Requested => {},
    }
}

/// As long as nobody asks for shutdown and some browser is live after each
/// thing that happens, the application goes on.
pub proof fn lemma_application_goes_on_while_browsers_live(now: Liveness, events: Seq<LifeEvent>)
    requires
        !now.shutdown_requested,
        forall|i: int| 0 <= i < events.len() ==> #[trigger] events[i] != LifeEvent::Requested,
        forall|n: int|
            0 < n <= events.len() ==> after_events(now, #[trigger] events.take(n)).browsers.len()
                > 0,
    ensures
        !after_events(now, events).shutdown_requested,
    decreases events.len(),
{
    if events.len() > 0 {
        let front = events.drop_last();
        assert forall|n: int| 0 < n <= front.len() implies after_events(
            now,
            #[trigger] front.take(n),
        ).browsers.len() > 0 by {
            assert(front.take(n) =~= events.take(n));
        }
        lemma_application_goes_on_while_browsers_live(now, front);
        assert(events.take(events.len() as int) =~= events);
        assert(events[events.len() - 1] != LifeEvent::Requested);
        lemma_shutdown_has_a_cause(after_events(now, front), events.last());
    }
}

/// Things happen one after the other, each to what the ones before have led to.
pub proof fn lemma_events_happen_in_order(
    now: Liveness,
    events: Seq<LifeEvent>,
    event: LifeEvent,
)
    ensures
        after_events(now, Seq::empty()) == now,
        after_events(now, events.push(event)) == life_next(after_events(now, events), event),
{
    assert(events.push(event).drop_last() =~= events);
}

/// A browser that the application opened is one of its own: no page opened it
/// and it belongs to no other.
pub proof fn lemma_main_browser_stands_alone(id: BrowserId, cef_id: i32)
    ensures
        main_state(id, cef_id).id == id,
        main_state(id, cef_id).cef_id == cef_id,
        main_state(id, cef_id).metadata.browser_type == BrowserType::Main,
        main_state(id, cef_id).metadata.parent is None,
        main_state(id, cef_id).metadata.opener is None,
{
}

} // verus!
