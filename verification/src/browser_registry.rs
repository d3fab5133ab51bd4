//! The live browsers.

use crate::seq_facts::{lemma_filter_all_in, lemma_filter_one_out};
use vstd::prelude::*;

verus! {

/// Names a browser for as long as the runtime lives; never used twice.
#[derive(Clone, Copy, Debug, PartialEq, Eq, Hash, Structural)]
pub struct BrowserId(pub u64);

/// What a browser was opened as.
#[derive(Clone, Copy, Debug, PartialEq, Eq, Structural)]
pub enum BrowserType {
    /// Opened by the application.
    Main,
    /// Opened by a page.
    Popup,
    /// The developer tools of another browser.
    DevTools,
}

/// What is known of a live browser.
#[derive(Clone, Copy, Debug, PartialEq, Eq, Structural)]
pub struct BrowserMetadata {
    pub browser_type: BrowserType,
    /// The browser this one belongs to.
    pub parent: Option<BrowserId>,
    /// The browser whose page opened this one.
    pub opener: Option<BrowserId>,
}

/// A live browser: its id here, its identifier in CEF, and its metadata.
#[derive(Clone, Copy, Debug, PartialEq, Eq, Structural)]
pub struct BrowserState {
    pub id: BrowserId,
    pub cef_id: i32,
    pub metadata: BrowserMetadata,
}

/// The live browsers in the order in which they were registered.
pub struct BrowserRegistry {
    pub entries: Vec<BrowserState>,
    pub next_id: u64,
}

/// The position of the browser `id` in `entries`.
pub open spec fn is_browser_at(entries: Seq<BrowserState>, id: BrowserId, i: int) -> bool {
    0 <= i < entries.len() && entries[i].id == id
}

/// Some browser in `entries` is `id`.
pub open spec fn has_browser(entries: Seq<BrowserState>, id: BrowserId) -> bool {
    exists|i: int| is_browser_at(entries, id, i)
}

/// The browser `id` in `entries`.
pub open spec fn browser_in(entries: Seq<BrowserState>, id: BrowserId) -> BrowserState
    recommends
        has_browser(entries, id),
{
    entries[choose|i: int| is_browser_at(entries, id, i)]
}

/// What is known of browser `id`, if it is live.
pub open spec fn browser_lookup(entries: Seq<BrowserState>, id: BrowserId) -> Option<BrowserState> {
    if has_browser(entries, id) {
        Some(browser_in(entries, id))
    } else {
        None
    }
}

/// The ids of the browsers whose parent is `parent`, in order.
pub open spec fn children_in(entries: Seq<BrowserState>, parent: BrowserId) -> Seq<BrowserId>
    decreases entries.len(),
{
    if entries.len() == 0 {
        Seq::empty()
    } else {
        let before = children_in(entries.drop_last(), parent);
        if entries.last().metadata.parent == Some(parent) {
            before.push(entries.last().id)
        } else {
            before
        }
    }
}

/// The id of the first browser in `entries` whose CEF identifier is `cef_id`.
pub open spec fn id_of_cef(entries: Seq<BrowserState>, cef_id: i32) -> Option<BrowserId>
    decreases entries.len(),
{
    if entries.len() == 0 {
        None
    } else if entries.first().cef_id == cef_id {
        Some(entries.first().id)
    } else {
        id_of_cef(entries.drop_first(), cef_id)
    }
}

/// `entries` with the opener of browser `id` replaced.
pub open spec fn with_opener(
    entries: Seq<BrowserState>,
    id: BrowserId,
    opener: Option<BrowserId>,
) -> Seq<BrowserState> {
    Seq::new(
        entries.len(),
        |i: int|
            if entries[i].id == id {
                BrowserState {
                    metadata: BrowserMetadata { opener, ..entries[i].metadata },
                    ..entries[i]
                }
            } else {
                entries[i]
            },
    )
}

/// `entries` without the browser `id`.
pub open spec fn without_browser(entries: Seq<BrowserState>, id: BrowserId) -> Seq<BrowserState> {
    entries.filter(|s: BrowserState| s.id != id)
}

impl BrowserRegistry {
    /// Ids rise in the order of registration and stay below the next one to give out.
    pub open spec fn wf(&self) -> bool {
        &&& forall|i: int, j: int|
            0 <= i < j < self.entries@.len() ==> self.entries@[i].id.0 < self.entries@[j].id.0
        &&& forall|i: int|
            0 <= i < self.entries@.len() ==> (#[trigger] self.entries@[i]).id.0 < self.next_id
    }

    pub fn new() -> (registry: BrowserRegistry)
        ensures
            registry.wf(),
            registry.entries@ == Seq::<BrowserState>::empty(),
            registry.next_id == 0,
    {
        BrowserRegistry { entries: Vec::new(), next_id: 0 }
    }

    /// Number of live browsers.
    pub fn count(&self) -> (n: usize)
        ensures
            n == self.entries@.len(),
    {
        self.entries.len()
    }

    /// Whether another browser can be registered.
    pub fn can_register(&self) -> (can: bool)
        ensures
            can == (self.next_id < u64::MAX),
    {
        self.next_id < u64::MAX
    }

    /// The browser `id`, if it is live.
    pub fn get(&self, id: BrowserId) -> (state: Option<BrowserState>)
        requires
            self.wf(),
        ensures
            state == browser_lookup(self.entries@, id),
    {
        let mut i: usize = 0;
        while i < self.entries.len()
            invariant
                self.wf(),
                i <= self.entries@.len(),
                forall|j: int| 0 <= j < i ==> (#[trigger] self.entries@[j]).id != id,
            decreases self.entries@.len() - i,
        {
            if self.entries[i].id == id {
                proof {
                    assert(is_browser_at(self.entries@, id, i as int));
                    let k = choose|k: int| is_browser_at(self.entries@, id, k);
                    if k < i {
                    } else if i < k {
                        assert(self.entries@[i as int].id.0 < self.entries@[k].id.0);
                    }
                }
                return Some(self.entries[i]);
            }
            i += 1;
        }
        None
    }

    /// Adds a browser under a fresh id, with no opener.
    pub fn register(
        &mut self,
        cef_id: i32,
        browser_type: BrowserType,
        parent: Option<BrowserId>,
    ) -> (id: BrowserId)
        requires
            old(self).wf(),
            old(self).next_id < u64::MAX,
        ensures
            final(self).wf(),
            id == BrowserId(old(self).next_id),
            final(self).next_id == old(self).next_id + 1,
            final(self).entries@ == old(self).entries@.push(
                BrowserState {
                    id,
                    cef_id,
                    metadata: BrowserMetadata { browser_type, parent, opener: None },
                },
            ),
            !has_browser(old(self).entries@, id),
    {
        let id = BrowserId(self.next_id);
        let metadata = BrowserMetadata { browser_type, parent, opener: None };
        self.next_id = self.next_id + 1;
        self.entries.push(BrowserState { id, cef_id, metadata });
        id
    }

    /// Records which browser opened `id`. Nothing changes when `id` is not live.
    pub fn set_opener(&mut self, id: BrowserId, opener: Option<BrowserId>)
        requires
            old(self).wf(),
        ensures
            final(self).wf(),
            final(self).next_id == old(self).next_id,
            final(self).entries@ == with_opener(old(self).entries@, id, opener),
    {
        let mut i: usize = 0;
        while i < self.entries.len()
            invariant
                i <= self.entries@.len(),
                self.entries@.len() == old(self).entries@.len(),
                self.next_id == old(self).next_id,
                forall|j: int|
                    0 <= j < i ==> #[trigger] self.entries@[j] == with_opener(
                        old(self).entries@,
                        id,
                        opener,
                    )[j],
                forall|j: int|
                    i <= j < self.entries@.len() ==> #[trigger] self.entries@[j]
                        == old(self).entries@[j],
            decreases self.entries@.len() - i,
        {
            let state = self.entries[i];
            if state.id == id {
                let metadata = BrowserMetadata {
                    browser_type: state.metadata.browser_type,
                    parent: state.metadata.parent,
                    opener,
                };
                self.entries.set(
                    i,
                    BrowserState { id: state.id, cef_id: state.cef_id, metadata },
                );
            }
            i += 1;
        }
        assert(self.entries@ =~= with_opener(old(self).entries@, id, opener));
    }

    /// Drops the browser `id`. Nothing changes when it is not live.
    pub fn unregister(&mut self, id: BrowserId)
        requires
            old(self).wf(),
        ensures
            final(self).wf(),
            final(self).next_id == old(self).next_id,
            final(self).entries@ == without_browser(old(self).entries@, id),
    {
        let ghost before = self.entries@;
        let ghost keep = |s: BrowserState| s.id != id;
        let mut i: usize = 0;
        while i < self.entries.len()
            invariant
                self.entries@ == before,
                before == old(self).entries@,
                self.next_id == old(self).next_id,
                old(self).wf(),
                keep == (|s: BrowserState| s.id != id),
                i <= before.len(),
                forall|j: int| 0 <= j < i ==> (#[trigger] before[j]).id != id,
            decreases before.len() - i,
        {
            if self.entries[i].id == id {
                let _ = self.entries.remove(i);
                proof {
                    lemma_filter_one_out(before, keep, i as int);
                }
                return ;
            }
            i += 1;
        }
        proof {
            lemma_filter_all_in(before, keep);
        }
    }

    /// The id of the first browser whose CEF identifier is `cef_id`.
    pub fn find_id_by_cef_id(&self, cef_id: i32) -> (id: Option<BrowserId>)
        ensures
            id == id_of_cef(self.entries@, cef_id),
    {
        let mut i: usize = 0;
        proof {
            assert(self.entries@.skip(0) =~= self.entries@);
        }
        while i < self.entries.len()
            invariant
                i <= self.entries@.len(),
                id_of_cef(self.entries@, cef_id) == id_of_cef(
                    self.entries@.skip(i as int),
                    cef_id,
                ),
            decreases self.entries@.len() - i,
        {
            proof {
                let rest = self.entries@.skip(i as int);
                assert(rest.first() == self.entries@[i as int]);
                assert(rest.drop_first() =~= self.entries@.skip(i + 1));
            }
            if self.entries[i].cef_id == cef_id {
                return Some(self.entries[i].id);
            }
            i += 1;
        }
        None
    }

    /// Parent of browser `id`; none when it is not live or has no parent.
    pub fn browser_parent(&self, id: BrowserId) -> (parent: Option<BrowserId>)
        requires
            self.wf(),
        ensures
            parent == (match browser_lookup(self.entries@, id) {
                Some(state) => state.metadata.parent,
                None => None,
            }),
    {
        match self.get(id) {
            Some(state) => state.metadata.parent,
            None => None,
        }
    }

    /// Opener of browser `id`; none when it is not live or has no opener.
    pub fn browser_opener(&self, id: BrowserId) -> (opener: Option<BrowserId>)
        requires
            self.wf(),
        ensures
            opener == (match browser_lookup(self.entries@, id) {
                Some(state) => state.metadata.opener,
                None => None,
            }),
    {
        match self.get(id) {
            Some(state) => state.metadata.opener,
            None => None,
        }
    }

    /// The browsers whose parent is `id`, in the order in which they were registered.
    pub fn children_of(&self, id: BrowserId) -> (children: Vec<BrowserId>)
        ensures
            children@ == children_in(self.entries@, id),
    {
        let mut children: Vec<BrowserId> = Vec::new();
        let mut i: usize = 0;
        assert(self.entries@.take(0) =~= Seq::empty());
        while i < self.entries.len()
            invariant
                i <= self.entries@.len(),
                children@ == children_in(self.entries@.take(i as int), id),
            decreases self.entries@.len() - i,
        {
            let state = self.entries[i];
            proof {
                let upto = self.entries@.take(i + 1);
                assert(upto.drop_last() =~= self.entries@.take(i as int));
                assert(upto.last() == state);
            }
            match state.metadata.parent {
                Some(parent) => {
                    if parent == id {
                        children.push(state.id);
                    }
                },
                None => {},
            }
            i += 1;
        }
        assert(self.entries@.take(i as int) =~= self.entries@);
        children
    }
}

/// A browser is found exactly when some entry carries its id, and what is found
/// is such an entry.
pub proof fn lemma_lookup_is_by_id(entries: Seq<BrowserState>, id: BrowserId)
    ensures
        has_browser(entries, id) <==> exists|i: int|
            0 <= i < entries.len() && (#[trigger] entries[i]).id == id,
        browser_lookup(entries, id) is Some <==> exists|i: int|
            0 <= i < entries.len() && (#[trigger] entries[i]).id == id,
        browser_lookup(entries, id) matches Some(state) ==> state.id == id && entries.contains(
            state,
        ),
{
    if exists|i: int| 0 <= i < entries.len() && (#[trigger] entries[i]).id == id {
        let i = choose|i: int| 0 <= i < entries.len() && (#[trigger] entries[i]).id == id;
        assert(is_browser_at(entries, id, i));
    }
    if has_browser(entries, id) {
        let i = choose|i: int| is_browser_at(entries, id, i);
        assert(entries[i].id == id);
        assert(entries.contains(entries[i]));
    }
}

/// Recording an opener changes the opener of that browser and nothing else.
pub proof fn lemma_only_the_opener_changes(
    entries: Seq<BrowserState>,
    id: BrowserId,
    opener: Option<BrowserId>,
    i: int,
)
    ensures
        ({
            let after = with_opener(entries, id, opener);
            &&& after.len() == entries.len()
            &&& 0 <= i < entries.len() ==> {
                &&& after[i].id == entries[i].id
                &&& after[i].cef_id == entries[i].cef_id
                &&& after[i].metadata.browser_type == entries[i].metadata.browser_type
                &&& after[i].metadata.parent == entries[i].metadata.parent
                &&& entries[i].id == id ==> after[i].metadata.opener == opener
                &&& entries[i].id != id ==> after[i].metadata.opener == entries[i].metadata.opener
            }
        }),
{
}

/// A browser that goes is taken out where it stands; the others keep their
/// order. Nothing goes with an id that no browser has.
pub proof fn lemma_one_browser_goes(registry: &BrowserRegistry, id: BrowserId, i: int)
    requires
        registry.wf(),
    ensures
        0 <= i < registry.entries@.len() && registry.entries@[i].id == id ==> without_browser(
            registry.entries@,
            id,
        ) == registry.entries@.remove(i),
        (forall|j: int| 0 <= j < registry.entries@.len() ==> (#[trigger] registry.entries@[j]).id
            != id) ==> without_browser(registry.entries@, id) == registry.entries@,
{
    let entries = registry.entries@;
    let keep = |s: BrowserState| s.id != id;
    if 0 <= i < entries.len() && entries[i].id == id {
        assert forall|j: int| 0 <= j < entries.len() && j != i implies keep(#[trigger] entries[j]) by {
            if j < i {
                assert(entries[j].id.0 < entries[i].id.0);
            } else {
                assert(entries[i].id.0 < entries[j].id.0);
            }
        }
        lemma_filter_one_out(entries, keep, i);
    }
    if forall|j: int| 0 <= j < entries.len() ==> (#[trigger] entries[j]).id != id {
        lemma_filter_all_in(entries, keep);
    }
}

/// Children are listed in the order in which they were registered: a browser
/// that comes last is the last child of its parent, and nobody else's.
pub proof fn lemma_children_in_order(
    entries: Seq<BrowserState>,
    state: BrowserState,
    parent: BrowserId,
)
    ensures
        children_in(Seq::empty(), parent).len() == 0,
        state.metadata.parent == Some(parent) ==> children_in(entries.push(state), parent)
            == children_in(entries, parent).push(state.id),
        state.metadata.parent != Some(parent) ==> children_in(entries.push(state), parent)
            == children_in(entries, parent),
{
    assert(entries.push(state).drop_last() =~= entries);
}

/// Of several browsers with one CEF identifier the first is found, and none is
/// where none has it.
pub proof fn lemma_first_cef_id_is_found(entries: Seq<BrowserState>, cef_id: i32, i: int)
    requires
        0 <= i <= entries.len(),
        forall|j: int| 0 <= j < i ==> (#[trigger] entries[j]).cef_id != cef_id,
    ensures
        i < entries.len() && entries[i].cef_id == cef_id ==> id_of_cef(entries, cef_id) == Some(
            entries[i].id,
        ),
        i == entries.len() ==> id_of_cef(entries, cef_id) is None,
    decreases i,
{
    if i > 0 {
        assert(entries[0].cef_id != cef_id);
        let rest = entries.drop_first();
        assert forall|j: int| 0 <= j < i - 1 implies (#[trigger] rest[j]).cef_id != cef_id by {
            assert(rest[j] == entries[j + 1]);
        }
        lemma_first_cef_id_is_found(rest, cef_id, i - 1);
        if i < entries.len() {
            assert(rest[i - 1] == entries[i]);
        }
    }
}

} // verus!
