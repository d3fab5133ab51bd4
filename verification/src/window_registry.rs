//! The open windows and the browser that each of them hosts.

use crate::browser_registry::BrowserId;
use crate::seq_facts::{lemma_filter_all_in, lemma_filter_one_out};
use vstd::prelude::*;

verus! {

/// Names a window for as long as the runtime lives; never used twice.
#[derive(Clone, Copy, Debug, PartialEq, Eq, Hash, Structural)]
pub struct WindowId(pub u64);

/// What is known of an open window.
#[derive(Clone, Copy, Debug, PartialEq, Eq, Structural)]
pub struct WindowMetadata {
    /// The browser it hosts, once that browser is known.
    pub browser: Option<BrowserId>,
}

/// An open window.
#[derive(Clone, Copy, Debug, PartialEq, Eq, Structural)]
pub struct WindowEntry {
    pub id: WindowId,
    pub metadata: WindowMetadata,
}

/// The open windows in the order in which they opened, and the next id to give out.
pub struct WindowRegistry {
    pub entries: Vec<WindowEntry>,
    pub next_id: u64,
}

/// The window `id` stands at position `i` of `entries`.
pub open spec fn is_window_at(entries: Seq<WindowEntry>, id: WindowId, i: int) -> bool {
    0 <= i < entries.len() && entries[i].id == id
}

/// Some window in `entries` is `id`.
pub open spec fn has_window(entries: Seq<WindowEntry>, id: WindowId) -> bool {
    exists|i: int| is_window_at(entries, id, i)
}

/// The ids of `entries`, in order.
pub open spec fn window_ids_in(entries: Seq<WindowEntry>) -> Seq<WindowId> {
    Seq::new(entries.len(), |i: int| entries[i].id)
}

/// `entries` after the window `id` opened hosting `browser`: an open window is
/// overwritten where it stands, another one comes last.
pub open spec fn with_window(
    entries: Seq<WindowEntry>,
    id: WindowId,
    browser: Option<BrowserId>,
) -> Seq<WindowEntry> {
    if has_window(entries, id) {
        with_browser(entries, id, browser)
    } else {
        entries.push(WindowEntry { id, metadata: WindowMetadata { browser } })
    }
}

/// `entries` with the browser of window `id` replaced.
pub open spec fn with_browser(
    entries: Seq<WindowEntry>,
    id: WindowId,
    browser: Option<BrowserId>,
) -> Seq<WindowEntry> {
    Seq::new(
        entries.len(),
        |i: int|
            if entries[i].id == id {
                WindowEntry { id, metadata: WindowMetadata { browser } }
            } else {
                entries[i]
            },
    )
}

/// `entries` without the window `id`.
pub open spec fn without_window(entries: Seq<WindowEntry>, id: WindowId) -> Seq<WindowEntry> {
    entries.filter(|w: WindowEntry| w.id != id)
}

/// The first window of `entries` that hosts `browser`.
pub open spec fn window_hosting(entries: Seq<WindowEntry>, browser: BrowserId) -> Option<WindowId>
    decreases entries.len(),
{
    if entries.len() == 0 {
        None
    } else if entries.first().metadata.browser == Some(browser) {
        Some(entries.first().id)
    } else {
        window_hosting(entries.drop_first(), browser)
    }
}

/// The browser that window `id` of `entries` hosts.
pub open spec fn browser_hosted(entries: Seq<WindowEntry>, id: WindowId) -> Option<BrowserId> {
    if has_window(entries, id) {
        entries[choose|i: int| is_window_at(entries, id, i)].metadata.browser
    } else {
        None
    }
}

/// What an operation gave out, its counter being `before` before it and `after`
/// after it: the id at the counter, which then moves on, or nothing.
pub open spec fn gives_out(before: u64, after: u64, id: Option<WindowId>) -> bool {
    match id {
        Some(given) => given == WindowId(before) && after == before + 1,
        None => after == before,
    }
}

impl WindowRegistry {
    /// No window is listed twice, and every listed id has been given out.
    pub open spec fn wf(&self) -> bool {
        &&& forall|i: int, j: int|
            0 <= i < j < self.entries@.len() ==> self.entries@[i].id != self.entries@[j].id
        &&& forall|i: int|
            0 <= i < self.entries@.len() ==> self.issued((#[trigger] self.entries@[i]).id)
    }

    /// `id` has been given out.
    pub open spec fn issued(&self, id: WindowId) -> bool {
        id.0 < self.next_id
    }

    pub fn new() -> (registry: WindowRegistry)
        ensures
            registry.wf(),
            registry.entries@ == Seq::<WindowEntry>::empty(),
            registry.next_id == 0,
    {
        WindowRegistry { entries: Vec::new(), next_id: 0 }
    }

    /// Number of open windows.
    pub fn count(&self) -> (n: usize)
        ensures
            n == self.entries@.len(),
    {
        self.entries.len()
    }

    /// Whether `id` has been given out by [`WindowRegistry::allocate_id`].
    pub fn is_issued(&self, id: WindowId) -> (issued: bool)
        ensures
            issued == self.issued(id),
            issued <==> id.0 < self.next_id,
    {
        id.0 < self.next_id
    }

    /// Whether another id can be given out.
    pub fn can_allocate(&self) -> (can: bool)
        ensures
            can == (self.next_id < u64::MAX),
    {
        self.next_id < u64::MAX
    }

    /// Gives out an id that no window has or ever had. No window opens by it.
    pub fn allocate_id(&mut self) -> (id: WindowId)
        requires
            old(self).wf(),
            old(self).next_id < u64::MAX,
        ensures
            final(self).wf(),
            final(self).entries@ == old(self).entries@,
            gives_out(old(self).next_id, final(self).next_id, Some(id)),
            id.0 == old(self).next_id,
            final(self).next_id == old(self).next_id + 1,
            !old(self).issued(id),
            final(self).issued(id),
            !has_window(final(self).entries@, id),
    {
        let id = WindowId(self.next_id);
        self.next_id = self.next_id + 1;
        id
    }

    /// Where the window `id` stands, if it is open.
    fn position(&self, id: WindowId) -> (position: Option<usize>)
        requires
            self.wf(),
        ensures
            match position {
                Some(i) => is_window_at(self.entries@, id, i as int) && (forall|j: int|
                    is_window_at(self.entries@, id, j) ==> j == i),
                None => !has_window(self.entries@, id),
            },
    {
        let mut i: usize = 0;
        while i < self.entries.len()
            invariant
                self.wf(),
                i <= self.entries@.len(),
                forall|j: int| 0 <= j < i ==> (#[trigger] self.entries@[j]).id != id,
            decreases self.entries@.len() - i,
        {
            if self.entries[i].id == id {
                return Some(i);
            }
            i += 1;
        }
        None
    }

    /// Records that the window `id` opened, hosting `browser` if that is known.
    pub fn insert(&mut self, id: WindowId, browser: Option<BrowserId>)
        requires
            old(self).wf(),
            old(self).issued(id),
        ensures
            final(self).wf(),
            gives_out(old(self).next_id, final(self).next_id, None),
            final(self).next_id == old(self).next_id,
            final(self).entries@ == with_window(old(self).entries@, id, browser),
    {
        let entry = WindowEntry { id, metadata: WindowMetadata { browser } };
        match self.position(id) {
            Some(i) => {
                assert(is_window_at(old(self).entries@, id, i as int));
                self.entries.set(i, entry);
                assert(self.entries@ =~= with_browser(old(self).entries@, id, browser)) by {
                    assert forall|j: int| 0 <= j < self.entries@.len() && j != i implies old(self).entries@[j].id != id by {
                        if old(self).entries@[j].id == id {
                            assert(is_window_at(old(self).entries@, id, j));
                        }
                    }
                }
            },
            None => {
                self.entries.push(entry);
                assert forall|j: int| 0 <= j < old(self).entries@.len() implies old(self).entries@[j].id != id by {
                    if old(self).entries@[j].id == id {
                        assert(is_window_at(old(self).entries@, id, j));
                    }
                }
            },
        }
    }

    /// Records that window `id` hosts `browser`. Nothing changes when it is not open.
    pub fn link_browser(&mut self, id: WindowId, browser: BrowserId)
        requires
            old(self).wf(),
        ensures
            final(self).wf(),
            gives_out(old(self).next_id, final(self).next_id, None),
            final(self).next_id == old(self).next_id,
            final(self).entries@ == with_browser(old(self).entries@, id, Some(browser)),
    {
        match self.position(id) {
            Some(i) => {
                let entry = WindowEntry { id, metadata: WindowMetadata { browser: Some(browser) } };
                self.entries.set(i, entry);
                assert forall|j: int| 0 <= j < self.entries@.len() && j != i implies old(self).entries@[j].id != id by {
                    if old(self).entries@[j].id == id {
                        assert(is_window_at(old(self).entries@, id, j));
                    }
                }
            },
            None => {
                assert forall|j: int| 0 <= j < old(self).entries@.len() implies old(self).entries@[j].id != id by {
                    if old(self).entries@[j].id == id {
                        assert(is_window_at(old(self).entries@, id, j));
                    }
                }
            },
        }
        assert(self.entries@ =~= with_browser(old(self).entries@, id, Some(browser)));
    }

    /// Records that window `id` is gone. Nothing changes when it is not open.
    pub fn unregister(&mut self, id: WindowId)
        requires
            old(self).wf(),
        ensures
            final(self).wf(),
            gives_out(old(self).next_id, final(self).next_id, None),
            final(self).next_id == old(self).next_id,
            final(self).entries@ == without_window(old(self).entries@, id),
    {
        let ghost before = self.entries@;
        let ghost keep = |w: WindowEntry| w.id != id;
        match self.position(id) {
            Some(i) => {
                let _ = self.entries.remove(i);
                proof {
                    assert forall|j: int| 0 <= j < before.len() && j != i implies keep(
                        #[trigger] before[j],
                    ) by {
                        if before[j].id == id {
                            assert(is_window_at(before, id, j));
                        }
                    }
                    lemma_filter_one_out(before, keep, i as int);
                }
            },
            None => {
                proof {
                    assert forall|j: int| 0 <= j < before.len() implies keep(
                        #[trigger] before[j],
                    ) by {
                        if before[j].id == id {
                            assert(is_window_at(before, id, j));
                        }
                    }
                    lemma_filter_all_in(before, keep);
                }
            },
        }
    }

    /// The first window that hosts `browser`.
    pub fn window_id_for_browser(&self, browser: BrowserId) -> (id: Option<WindowId>)
        ensures
            id == window_hosting(self.entries@, browser),
    {
        let mut i: usize = 0;
        proof {
            assert(self.entries@.skip(0) =~= self.entries@);
        }
        while i < self.entries.len()
            invariant
                i <= self.entries@.len(),
                window_hosting(self.entries@, browser) == window_hosting(
                    self.entries@.skip(i as int),
                    browser,
                ),
            decreases self.entries@.len() - i,
        {
            proof {
                let rest = self.entries@.skip(i as int);
                assert(rest.first() == self.entries@[i as int]);
                assert(rest.drop_first() =~= self.entries@.skip(i + 1));
            }
            match self.entries[i].metadata.browser {
                Some(hosted) => {
                    if hosted == browser {
                        return Some(self.entries[i].id);
                    }
                },
                None => {},
            }
            i += 1;
        }
        None
    }

    /// The browser that window `id` hosts, if it is open and hosts one.
    pub fn browser_for_window(&self, id: WindowId) -> (browser: Option<BrowserId>)
        requires
            self.wf(),
        ensures
            browser == browser_hosted(self.entries@, id),
    {
        match self.position(id) {
            Some(i) => self.entries[i].metadata.browser,
            None => None,
        }
    }

    /// The ids of the open windows, in the order in which they opened.
    pub fn ids(&self) -> (ids: Vec<WindowId>)
        ensures
            ids@ == window_ids_in(self.entries@),
    {
        let mut ids: Vec<WindowId> = Vec::new();
        let mut i: usize = 0;
        while i < self.entries.len()
            invariant
                i <= self.entries@.len(),
                ids@.len() == i,
                forall|j: int| 0 <= j < i ==> #[trigger] ids@[j] == self.entries@[j].id,
            decreases self.entries@.len() - i,
        {
            ids.push(self.entries[i].id);
            i += 1;
        }
        assert(ids@ =~= window_ids_in(self.entries@));
        ids
    }
}

/// An id that is given out was not given out before, and is from then on;
/// nothing else changes about which ids have been given out.
pub proof fn lemma_one_id_is_given_out(
    before: u64,
    after: u64,
    id: Option<WindowId>,
    other: WindowId,
)
    requires
        gives_out(before, after, id),
    ensures
        id matches Some(given) ==> !(given.0 < before) && given.0 < after,
        other.0 < after <==> (other.0 < before || id == Some(other)),
{
}

/// A window is open exactly when some entry carries its id, and it hosts what
/// that entry says; a window that is not open hosts nothing.
pub proof fn lemma_window_lookup_is_by_id(entries: Seq<WindowEntry>, id: WindowId)
    ensures
        has_window(entries, id) <==> exists|i: int|
            0 <= i < entries.len() && (#[trigger] entries[i]).id == id,
        !has_window(entries, id) ==> browser_hosted(entries, id) is None,
        has_window(entries, id) ==> exists|i: int|
            0 <= i < entries.len() && (#[trigger] entries[i]).id == id
                && entries[i].metadata.browser == browser_hosted(entries, id),
{
    if exists|i: int| 0 <= i < entries.len() && (#[trigger] entries[i]).id == id {
        let i = choose|i: int| 0 <= i < entries.len() && (#[trigger] entries[i]).id == id;
        assert(is_window_at(entries, id, i));
    }
    if has_window(entries, id) {
        let i = choose|i: int| is_window_at(entries, id, i);
        assert(entries[i].id == id);
    }
}

/// Linking a browser to a window leaves every window where it is, and every
/// other window with the browser that it had.
pub proof fn lemma_linking_touches_one_window(
    entries: Seq<WindowEntry>,
    id: WindowId,
    browser: Option<BrowserId>,
    i: int,
)
    ensures
        with_browser(entries, id, browser).len() == entries.len(),
        0 <= i < entries.len() ==> {
            let after = with_browser(entries, id, browser)[i];
            &&& after.id == entries[i].id
            &&& entries[i].id == id ==> after.metadata.browser == browser
            &&& entries[i].id != id ==> after.metadata.browser == entries[i].metadata.browser
        },
{
}

/// A window that opens comes last, unless it is open already; every other
/// window stays where it is with the browser that it had.
pub proof fn lemma_opening_touches_one_window(
    entries: Seq<WindowEntry>,
    id: WindowId,
    browser: Option<BrowserId>,
    i: int,
)
    ensures
        ({
            let after = with_window(entries, id, browser);
            let open = exists|k: int| 0 <= k < entries.len() && (#[trigger] entries[k]).id == id;
            &&& 0 <= i < entries.len() ==> {
                &&& after[i].id == entries[i].id
                &&& entries[i].id == id ==> after[i].metadata.browser == browser
                &&& entries[i].id != id ==> after[i].metadata.browser
                    == entries[i].metadata.browser
            }
            &&& open ==> after.len() == entries.len()
            &&& !open ==> {
                &&& after.len() == entries.len() + 1
                &&& after.last().id == id
                &&& after.last().metadata.browser == browser
            }
        }),
{
    lemma_window_lookup_is_by_id(entries, id);
}

/// A window that goes is taken out where it stands; the others keep their
/// order and their browsers. Nothing goes with an id that no window has.
pub proof fn lemma_one_window_goes(registry: &WindowRegistry, id: WindowId, i: int)
    requires
        registry.wf(),
    ensures
        0 <= i < registry.entries@.len() && registry.entries@[i].id == id ==> without_window(
            registry.entries@,
            id,
        ) == registry.entries@.remove(i),
        (forall|j: int| 0 <= j < registry.entries@.len() ==> (#[trigger] registry.entries@[j]).id
            != id) ==> without_window(registry.entries@, id) == registry.entries@,
{
    let entries = registry.entries@;
    let keep = |w: WindowEntry| w.id != id;
    if 0 <= i < entries.len() && entries[i].id == id {
        assert forall|j: int| 0 <= j < entries.len() && j != i implies keep(#[trigger] entries[j]) by {
            if j < i {
                assert(entries[j].id != entries[i].id);
            } else {
                assert(entries[i].id != entries[j].id);
            }
        }
        lemma_filter_one_out(entries, keep, i);
    }
    if forall|j: int| 0 <= j < entries.len() ==> (#[trigger] entries[j]).id != id {
        lemma_filter_all_in(entries, keep);
    }
}

/// The listed ids are those of the windows, in the same order.
pub proof fn lemma_ids_are_listed_in_order(entries: Seq<WindowEntry>, i: int)
    ensures
        window_ids_in(entries).len() == entries.len(),
        0 <= i < entries.len() ==> window_ids_in(entries)[i] == entries[i].id,
{
}

/// Of several windows that host one browser the first is found, and none is
/// where none hosts it.
pub proof fn lemma_first_host_is_found(entries: Seq<WindowEntry>, browser: BrowserId, i: int)
    requires
        0 <= i <= entries.len(),
        forall|j: int| 0 <= j < i ==> (#[trigger] entries[j]).metadata.browser != Some(browser),
    ensures
        i < entries.len() && entries[i].metadata.browser == Some(browser) ==> window_hosting(
            entries,
            browser,
        ) == Some(entries[i].id),
        i == entries.len() ==> window_hosting(entries, browser) is None,
    decreases i,
{
    if i > 0 {
        assert(entries[0].metadata.browser != Some(browser));
        let rest = entries.drop_first();
        assert forall|j: int| 0 <= j < i - 1 implies (#[trigger] rest[j]).metadata.browser != Some(
            browser,
        ) by {
            assert(rest[j] == entries[j + 1]);
        }
        lemma_first_host_is_found(rest, browser, i - 1);
        if i < entries.len() {
            assert(rest[i - 1] == entries[i]);
        }
    }
}

} // verus!
