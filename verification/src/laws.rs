//! What holds across the registries, the handles and the layout.

use crate::app_handle::AppHandle;
use crate::app_instance::{wait_step, WaitStep};
use crate::browser_handle::{BrowserHandle, BrowserOpView};
use crate::browser_registry::{
    browser_in, browser_lookup, children_in, has_browser, id_of_cef, is_browser_at,
    without_browser, BrowserId, BrowserRegistry, BrowserState,
};
use crate::layout::install_root_view;
use crate::window::popup_state;
use crate::window_registry::{
    browser_hosted, gives_out, has_window, is_window_at, window_hosting, window_ids_in,
    with_browser, with_window, without_window, WindowEntry, WindowId, WindowRegistry,
};
use vstd::prelude::*;

verus! {

/// No two entries carry the same browser id.
pub open spec fn distinct_browsers(entries: Seq<BrowserState>) -> bool {
    forall|i: int, j: int| 0 <= i < j < entries.len() ==> entries[i].id != entries[j].id
}

/// No two entries carry the same window id.
pub open spec fn distinct_windows(entries: Seq<WindowEntry>) -> bool {
    forall|i: int, j: int| 0 <= i < j < entries.len() ==> entries[i].id != entries[j].id
}

/// A well-formed registry lists no browser twice.
pub proof fn lemma_registered_browsers_are_distinct(registry: &BrowserRegistry)
    requires
        registry.wf(),
    ensures
        distinct_browsers(registry.entries@),
{
}

/// Looking a browser up finds the entry it stands at.
pub proof fn lemma_lookup_finds_entry(entries: Seq<BrowserState>, i: int)
    requires
        distinct_browsers(entries),
        0 <= i < entries.len(),
    ensures
        browser_lookup(entries, entries[i].id) == Some(entries[i]),
{
    let id = entries[i].id;
    assert(is_browser_at(entries, id, i));
    let k = choose|k: int| is_browser_at(entries, id, k);
    if k < i {
        assert(entries[k].id != entries[i].id);
    } else if i < k {
        assert(entries[i].id != entries[k].id);
    }
}

/// The children of a browser are exactly the live browsers whose parent it is.
pub proof fn lemma_children_are_those_with_parent(
    entries: Seq<BrowserState>,
    parent: BrowserId,
    child: BrowserId,
)
    requires
        distinct_browsers(entries),
    ensures
        children_in(entries, parent).contains(child) <==> (browser_lookup(
            entries,
            child,
        ) matches Some(state) && state.metadata.parent == Some(parent)),
{
    lemma_children_entries(entries, parent, child);
    if children_in(entries, parent).contains(child) {
        let i = choose|i: int|
            0 <= i < entries.len() && entries[i].id == child && entries[i].metadata.parent == Some(
                parent,
            );
        lemma_lookup_finds_entry(entries, i);
    }
    if has_browser(entries, child) {
        let i = choose|i: int| is_browser_at(entries, child, i);
        lemma_lookup_finds_entry(entries, i);
    }
}

/// No child of a browser is listed twice.
pub proof fn lemma_children_are_distinct(registry: &BrowserRegistry, parent: BrowserId)
    requires
        registry.wf(),
    ensures
        children_in(registry.entries@, parent).no_duplicates(),
{
    lemma_children_of_distinct(registry.entries@, parent);
}

proof fn lemma_children_of_distinct(entries: Seq<BrowserState>, parent: BrowserId)
    requires
        distinct_browsers(entries),
    ensures
        children_in(entries, parent).no_duplicates(),
    decreases entries.len(),
{
    if entries.len() > 0 {
        let front = entries.drop_last();
        let last = entries.last();
        let before = children_in(front, parent);
        lemma_children_of_distinct(front, parent);
        lemma_children_entries(front, parent, last.id);
        assert(!before.contains(last.id)) by {
            if before.contains(last.id) {
                let i = choose|i: int|
                    0 <= i < front.len() && (#[trigger] front[i]).id == last.id
                        && front[i].metadata.parent == Some(parent);
                assert(entries[i].id != entries[entries.len() - 1].id);
            }
        }
        assert forall|i: int, j: int|
            0 <= i < j < children_in(entries, parent).len() implies children_in(entries, parent)[i]
            != children_in(entries, parent)[j] by {
            if j == before.len() {
                assert(before[i] == children_in(entries, parent)[i]);
                assert(before.contains(before[i]));
            }
        }
    }
}

/// A child stands in the list exactly when some entry makes it one.
proof fn lemma_children_entries(entries: Seq<BrowserState>, parent: BrowserId, child: BrowserId)
    ensures
        children_in(entries, parent).contains(child) <==> exists|i: int|
            0 <= i < entries.len() && (#[trigger] entries[i]).id == child
                && entries[i].metadata.parent == Some(parent),
    decreases entries.len(),
{
    if entries.len() > 0 {
        let front = entries.drop_last();
        let last = entries.last();
        let before = children_in(front, parent);
        let all = children_in(entries, parent);
        lemma_children_entries(front, parent, child);
        assert(entries[entries.len() - 1] == last);
        assert(forall|i: int| 0 <= i < front.len() ==> front[i] == entries[i]);
        if all.contains(child) {
            let k = choose|k: int| 0 <= k < all.len() && all[k] == child;
            if k < before.len() {
                assert(before[k] == child);
                assert(before.contains(child));
                let i = choose|i: int|
                    0 <= i < front.len() && (#[trigger] front[i]).id == child
                        && front[i].metadata.parent == Some(parent);
                assert(entries[i] == front[i]);
            }
        }
        if exists|i: int|
            0 <= i < entries.len() && (#[trigger] entries[i]).id == child
                && entries[i].metadata.parent == Some(parent) {
            let i = choose|i: int|
                0 <= i < entries.len() && (#[trigger] entries[i]).id == child
                    && entries[i].metadata.parent == Some(parent);
            if i < front.len() {
                assert(front[i] == entries[i]);
                assert(before.contains(child));
                let k = choose|k: int| 0 <= k < before.len() && before[k] == child;
                assert(all[k] == child);
            } else {
                assert(all[all.len() - 1] == child);
            }
        }
    }
}

/// A browser that has closed is gone, and the others are as they were.
pub proof fn lemma_closed_browser_is_gone(
    entries: Seq<BrowserState>,
    closed: BrowserId,
    other: BrowserId,
)
    requires
        distinct_browsers(entries),
    ensures
        browser_lookup(without_browser(entries, closed), closed) is None,
        other != closed ==> browser_lookup(without_browser(entries, closed), other)
            == browser_lookup(entries, other),
{
    broadcast use vstd::seq_lib::group_filter_ensures;

    let keep = |s: BrowserState| s.id != closed;
    let left = without_browser(entries, closed);
    if has_browser(left, closed) {
        let i = choose|i: int| is_browser_at(left, closed, i);
        assert(keep(left[i]));
    }
    if other != closed {
        if has_browser(entries, other) {
            let i = choose|i: int| is_browser_at(entries, other, i);
            assert(keep(entries[i]));
            assert(left.contains(entries[i]));
            let k = choose|k: int| 0 <= k < left.len() && left[k] == entries[i];
            assert(is_browser_at(left, other, k));
            lemma_lookup_finds_entry(entries, i);
            let m = choose|m: int| is_browser_at(left, other, m);
            entries.lemma_filter_contains_rev(keep, left[m]);
            let n = choose|n: int| 0 <= n < entries.len() && entries[n] == left[m];
            lemma_lookup_finds_entry(entries, n);
        }
        if has_browser(left, other) {
            let m = choose|m: int| is_browser_at(left, other, m);
            entries.lemma_filter_contains_rev(keep, left[m]);
            let n = choose|n: int| 0 <= n < entries.len() && entries[n] == left[m];
            assert(is_browser_at(entries, other, n));
        }
    }
}

/// A handle to a browser that has closed does nothing, and no new handle to it
/// can be had.
pub proof fn lemma_stale_handle_is_inert(
    app: &AppHandle,
    handle: BrowserHandle,
    op: BrowserOpView,
)
    requires
        !has_browser(app.live_browsers(), handle.id),
    ensures
        handle.directed(&app.services.browser_registry, op) is None,
        app.handle_of(handle.id) is None,
{
}

/// A handle can be had to every live browser, and its calls go to that browser.
pub proof fn lemma_live_handle_reaches_its_browser(app: &AppHandle, i: int, op: BrowserOpView)
    requires
        app.wf(),
        0 <= i < app.live_browsers().len(),
    ensures
        app.handle_of(app.live_browsers()[i].id) matches Some(handle) && (handle.directed(
            &app.services.browser_registry,
            op,
        ) matches Some(call) && call.cef_id == app.live_browsers()[i].cef_id && call.op == op),
{
    lemma_lookup_finds_entry(app.live_browsers(), i);
}

/// The id found for a CEF identifier is that of a live browser which has it,
/// and one is found whenever there is such a browser.
pub proof fn lemma_cef_id_lookup(entries: Seq<BrowserState>, cef_id: i32)
    requires
        distinct_browsers(entries),
    ensures
        id_of_cef(entries, cef_id) matches Some(id) ==> (browser_lookup(entries, id) matches Some(
            state,
        ) && state.cef_id == cef_id),
        id_of_cef(entries, cef_id) is None <==> forall|i: int|
            0 <= i < entries.len() ==> (#[trigger] entries[i]).cef_id != cef_id,
    decreases entries.len(),
{
    lemma_cef_id_entry(entries, cef_id);
    if id_of_cef(entries, cef_id) is Some {
        let i = choose|i: int|
            0 <= i < entries.len() && (#[trigger] entries[i]).cef_id == cef_id
                && id_of_cef(entries, cef_id) == Some(entries[i].id);
        lemma_lookup_finds_entry(entries, i);
    }
}

proof fn lemma_cef_id_entry(entries: Seq<BrowserState>, cef_id: i32)
    ensures
        id_of_cef(entries, cef_id) is Some ==> exists|i: int|
            0 <= i < entries.len() && (#[trigger] entries[i]).cef_id == cef_id && id_of_cef(
                entries,
                cef_id,
            ) == Some(entries[i].id),
        id_of_cef(entries, cef_id) is None <==> forall|i: int|
            0 <= i < entries.len() ==> (#[trigger] entries[i]).cef_id != cef_id,
    decreases entries.len(),
{
    if entries.len() > 0 {
        let rest = entries.drop_first();
        lemma_cef_id_entry(rest, cef_id);
        assert(entries[0] == entries.first());
        assert(forall|i: int| 0 <= i < rest.len() ==> rest[i] == entries[i + 1]);
        if entries.first().cef_id != cef_id {
            if id_of_cef(rest, cef_id) is Some {
                let i = choose|i: int|
                    0 <= i < rest.len() && (#[trigger] rest[i]).cef_id == cef_id && id_of_cef(
                        rest,
                        cef_id,
                    ) == Some(rest[i].id);
                assert(entries[i + 1] == rest[i]);
            } else {
                assert forall|i: int| 0 <= i < entries.len() implies (
                #[trigger] entries[i]).cef_id != cef_id by {
                    if i > 0 {
                        assert(rest[i - 1] == entries[i]);
                    }
                }
            }
        }
    }
}

/// A popup is a child of the browser that it came from, and was opened by it.
pub proof fn lemma_popup_belongs_to_its_opener(
    entries: Seq<BrowserState>,
    id: BrowserId,
    cef_id: i32,
    parent: BrowserId,
    is_devtools: i32,
)
    requires
        distinct_browsers(entries),
        !has_browser(entries, id),
    ensures
        ({
            let after = entries.push(popup_state(id, cef_id, Some(parent), is_devtools));
            &&& children_in(after, parent) == children_in(entries, parent).push(id)
            &&& browser_lookup(after, id) == Some(
                popup_state(id, cef_id, Some(parent), is_devtools),
            )
            &&& browser_in(after, id).metadata.opener == Some(parent)
        }),
{
    let state = popup_state(id, cef_id, Some(parent), is_devtools);
    let after = entries.push(state);
    assert(after.drop_last() =~= entries);
    assert forall|i: int, j: int| 0 <= i < j < after.len() implies after[i].id != after[j].id by {
        if j == entries.len() && after[i].id == id {
            assert(is_browser_at(entries, id, i));
        }
    }
    lemma_lookup_finds_entry(after, entries.len() as int);
}

/// Looking a window up finds the entry it stands at.
pub proof fn lemma_hosted_finds_entry(entries: Seq<WindowEntry>, i: int)
    requires
        distinct_windows(entries),
        0 <= i < entries.len(),
    ensures
        has_window(entries, entries[i].id),
        browser_hosted(entries, entries[i].id) == entries[i].metadata.browser,
{
    let id = entries[i].id;
    assert(is_window_at(entries, id, i));
    let k = choose|k: int| is_window_at(entries, id, k);
    if k < i {
        assert(entries[k].id != entries[i].id);
    } else if i < k {
        assert(entries[i].id != entries[k].id);
    }
}

/// The window found for a browser hosts that browser.
pub proof fn lemma_found_window_hosts_browser(entries: Seq<WindowEntry>, browser: BrowserId)
    requires
        distinct_windows(entries),
    ensures
        window_hosting(entries, browser) matches Some(id) ==> browser_hosted(entries, id) == Some(
            browser,
        ),
{
    lemma_hosting_entry(entries, browser);
    if window_hosting(entries, browser) is Some {
        let i = choose|i: int|
            0 <= i < entries.len() && window_hosting(entries, browser) == Some(
                (#[trigger] entries[i]).id,
            ) && entries[i].metadata.browser == Some(browser);
        lemma_hosted_finds_entry(entries, i);
    }
}

/// A window is found for every browser that some open window hosts.
pub proof fn lemma_hosted_browser_has_window(
    entries: Seq<WindowEntry>,
    id: WindowId,
    browser: BrowserId,
)
    requires
        distinct_windows(entries),
        browser_hosted(entries, id) == Some(browser),
    ensures
        window_hosting(entries, browser) is Some,
{
    lemma_hosting_entry(entries, browser);
    let i = choose|i: int| is_window_at(entries, id, i);
    assert(entries[i].metadata.browser == Some(browser));
}

proof fn lemma_hosting_entry(entries: Seq<WindowEntry>, browser: BrowserId)
    ensures
        window_hosting(entries, browser) is Some ==> exists|i: int|
            0 <= i < entries.len() && window_hosting(entries, browser) == Some(
                (#[trigger] entries[i]).id,
            ) && entries[i].metadata.browser == Some(browser),
        window_hosting(entries, browser) is None ==> forall|i: int|
            0 <= i < entries.len() ==> (#[trigger] entries[i]).metadata.browser != Some(browser),
    decreases entries.len(),
{
    if entries.len() > 0 {
        let rest = entries.drop_first();
        lemma_hosting_entry(rest, browser);
        assert(entries[0] == entries.first());
        assert(forall|i: int| 0 <= i < rest.len() ==> rest[i] == entries[i + 1]);
        if entries.first().metadata.browser != Some(browser) {
            if window_hosting(rest, browser) is Some {
                let i = choose|i: int|
                    0 <= i < rest.len() && window_hosting(rest, browser) == Some(
                        (#[trigger] rest[i]).id,
                    ) && rest[i].metadata.browser == Some(browser);
                assert(entries[i + 1] == rest[i]);
            } else {
                assert forall|i: int| 0 <= i < entries.len() implies (
                #[trigger] entries[i]).metadata.browser != Some(browser) by {
                    if i > 0 {
                        assert(rest[i - 1] == entries[i]);
                    }
                }
            }
        }
    }
}

/// A window that has opened hosts the browser it was opened with, and a window
/// that has gone hosts none.
pub proof fn lemma_window_opens_and_goes(
    entries: Seq<WindowEntry>,
    id: WindowId,
    browser: Option<BrowserId>,
)
    requires
        distinct_windows(entries),
    ensures
        has_window(with_window(entries, id, browser), id),
        browser_hosted(with_window(entries, id, browser), id) == browser,
        !has_window(without_window(entries, id), id),
        browser_hosted(without_window(entries, id), id) is None,
{
    let opened = with_window(entries, id, browser);
    if has_window(entries, id) {
        let i = choose|i: int| is_window_at(entries, id, i);
        lemma_relinked_stay_distinct(entries, id, browser);
        lemma_hosted_finds_entry(opened, i);
    } else {
        assert forall|i: int, j: int| 0 <= i < j < opened.len() implies opened[i].id
            != opened[j].id by {
            if j == entries.len() && opened[i].id == id {
                assert(is_window_at(entries, id, i));
            }
        }
        lemma_hosted_finds_entry(opened, entries.len() as int);
    }
    broadcast use vstd::seq_lib::group_filter_ensures;

    let keep = |w: WindowEntry| w.id != id;
    let left = without_window(entries, id);
    if has_window(left, id) {
        let i = choose|i: int| is_window_at(left, id, i);
        assert(keep(left[i]));
    }
}

/// Linking a browser to a window, opening a window, or one going leaves every
/// other window open or not as it was, with the browser that it had.
pub proof fn lemma_other_windows_are_left_alone(
    entries: Seq<WindowEntry>,
    id: WindowId,
    browser: Option<BrowserId>,
    other: WindowId,
)
    requires
        distinct_windows(entries),
        other != id,
    ensures
        has_window(with_browser(entries, id, browser), other) == has_window(entries, other),
        browser_hosted(with_browser(entries, id, browser), other) == browser_hosted(entries, other),
        has_window(with_window(entries, id, browser), other) == has_window(entries, other),
        browser_hosted(with_window(entries, id, browser), other) == browser_hosted(entries, other),
        has_window(without_window(entries, id), other) == has_window(entries, other),
        browser_hosted(without_window(entries, id), other) == browser_hosted(entries, other),
{
    broadcast use vstd::seq_lib::group_filter_ensures;

    let keep = |w: WindowEntry| w.id != id;
    let linked = with_browser(entries, id, browser);
    let opened = with_window(entries, id, browser);
    let left = without_window(entries, id);
    lemma_relinked_stay_distinct(entries, id, browser);
    lemma_window_opens_and_goes(entries, id, browser);
    assert(distinct_windows(opened)) by {
        if !has_window(entries, id) {
            assert forall|i: int, j: int| 0 <= i < j < opened.len() implies opened[i].id
                != opened[j].id by {
                if j == entries.len() && opened[i].id == id {
                    assert(is_window_at(entries, id, i));
                }
            }
        }
    }
    if has_window(entries, other) {
        let i = choose|i: int| is_window_at(entries, other, i);
        lemma_hosted_finds_entry(entries, i);
        lemma_hosted_finds_entry(linked, i);
        lemma_hosted_finds_entry(opened, i);
        assert(keep(entries[i]));
        entries.lemma_filter_contains(keep, i);
        let k = choose|k: int| 0 <= k < left.len() && left[k] == entries[i];
        assert(is_window_at(left, other, k));
        let m = choose|m: int| is_window_at(left, other, m);
        entries.lemma_filter_contains_rev(keep, left[m]);
        let n = choose|n: int| 0 <= n < entries.len() && entries[n] == left[m];
        lemma_hosted_finds_entry(entries, n);
    } else {
        if has_window(linked, other) {
            let i = choose|i: int| is_window_at(linked, other, i);
            assert(is_window_at(entries, other, i));
        }
        if has_window(opened, other) {
            let i = choose|i: int| is_window_at(opened, other, i);
            assert(is_window_at(entries, other, i));
        }
        if has_window(left, other) {
            let m = choose|m: int| is_window_at(left, other, m);
            entries.lemma_filter_contains_rev(keep, left[m]);
            let n = choose|n: int| 0 <= n < entries.len() && entries[n] == left[m];
            assert(is_window_at(entries, other, n));
        }
    }
}

proof fn lemma_relinked_stay_distinct(
    entries: Seq<WindowEntry>,
    id: WindowId,
    browser: Option<BrowserId>,
)
    requires
        distinct_windows(entries),
    ensures
        distinct_windows(with_browser(entries, id, browser)),
{
    let after = with_browser(entries, id, browser);
    assert forall|i: int, j: int| 0 <= i < j < after.len() implies after[i].id != after[j].id by {
        assert(after[i].id == entries[i].id);
        assert(after[j].id == entries[j].id);
    }
}

/// Once an open window has been linked to a live browser, waiting for that
/// window's browser ends with a handle to it, however much time has passed.
pub proof fn lemma_wait_finds_linked_browser(
    before: &AppHandle,
    after: &AppHandle,
    window: WindowId,
    browser: BrowserId,
    elapsed_ns: u128,
    timeout_ns: u128,
)
    requires
        before.wf(),
        has_window(before.open_windows(), window),
        after.open_windows() == with_browser(before.open_windows(), window, Some(browser)),
        has_browser(after.live_browsers(), browser),
    ensures
        wait_step(after, window, elapsed_ns, timeout_ns) == WaitStep::Return(
            Some(BrowserHandle { id: browser, ui_thread_id: after.ui_thread_id }),
        ),
{
    let entries = before.open_windows();
    lemma_relinked_stay_distinct(entries, window, Some(browser));
    let i = choose|i: int| is_window_at(entries, window, i);
    lemma_hosted_finds_entry(after.open_windows(), i);
}

/// No two windows of one runtime share an id. `given` holds what each of its
/// operations gave out, in order, and `counters` where the counter stood before
/// and after each; an operation that failed or opened no window gave out none.
pub proof fn lemma_windows_never_share_an_id(
    counters: Seq<u64>,
    given: Seq<Option<WindowId>>,
    first: int,
    second: int,
)
    requires
        counters.len() == given.len() + 1,
        forall|k: int|
            0 <= k < given.len() ==> gives_out(
                counters[k],
                counters[k + 1],
                #[trigger] given[k],
            ),
        0 <= first < second < given.len(),
        given[first] is Some,
        given[second] is Some,
    ensures
        given[first] != given[second],
{
    assert(gives_out(counters[first], counters[first + 1], given[first]));
    lemma_counter_never_falls(counters, given, first + 1, second);
}

/// The counter that ids are given out from never falls.
proof fn lemma_counter_never_falls(
    counters: Seq<u64>,
    given: Seq<Option<WindowId>>,
    from: int,
    to: int,
)
    requires
        counters.len() == given.len() + 1,
        forall|k: int|
            0 <= k < given.len() ==> gives_out(
                counters[k],
                counters[k + 1],
                #[trigger] given[k],
            ),
        0 <= from <= to < counters.len(),
    ensures
        counters[from] <= counters[to],
    decreases to - from,
{
    if from < to {
        lemma_counter_never_falls(counters, given, from, to - 1);
        assert(gives_out(counters[to - 1], counters[to - 1 + 1], given[to - 1]));
    }
}

/// There are as many window ids as open windows, and no two are the same.
pub proof fn lemma_window_ids_are_distinct(registry: &WindowRegistry)
    requires
        registry.wf(),
    ensures
        window_ids_in(registry.entries@).len() == registry.entries@.len(),
        window_ids_in(registry.entries@).no_duplicates(),
        distinct_windows(registry.entries@),
{
}

/// Different versions have install paths with different lists of parts, each of
/// them the parts of the directory of managed installations and the version.
/// Where such paths lead on a disk is another matter: `1` and `1/` name one
/// directory, and an absolute path joined onto another takes its place.
pub proof fn lemma_versions_have_their_own_path(version: Seq<char>, other: Seq<char>)
    ensures
        install_root_view().join(version) == install_root_view().join(other) ==> version == other,
        install_root_view().join(version).parts.drop_last() == install_root_view().parts,
{
    let a = install_root_view().join(version);
    let b = install_root_view().join(other);
    if a == b {
        assert(a.parts.last() == b.parts.last());
    }
    assert(a.parts.drop_last() =~= install_root_view().parts);
}

} // verus!
