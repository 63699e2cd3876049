//! The ordered set of open tabs of a window and which of them is active.
use vstd::prelude::*;

use crate::item_key::{ItemKey, TabKey};

verus! {

/// One open tab.
#[derive(Debug, Clone, Copy, PartialEq, Eq, Structural)]
pub struct TabState {
    pub key: TabKey,
    pub pinned: bool,
}

impl TabState {
    /// An unpinned tab for the given key.
    pub fn new(key: TabKey) -> (r: Self)
        ensures
            r == (TabState { key, pinned: false }),
    {
        TabState { key, pinned: false }
    }
}

/// What `open_or_focus` did.
#[derive(Debug, Clone, Copy, PartialEq, Eq, Structural)]
pub struct OpenTabOutcome {
    pub key: TabKey,
    pub index: usize,
    pub already_open: bool,
}

/// What `close` did.
#[derive(Debug, Clone, Copy, PartialEq, Eq, Structural)]
pub struct CloseTabOutcome {
    pub closed: TabKey,
    pub closed_index: usize,
    pub next_active: Option<TabKey>,
}

/// The abstract state of a tab manager.
pub struct TabManagerView {
    pub tabs: Seq<TabState>,
    pub active: Option<TabKey>,
}

#[derive(Debug, Clone, PartialEq, Eq)]
pub struct TabManager {
    tabs: Vec<TabState>,
    active: Option<TabKey>,
}

/// Whether a key is among the open tabs.
pub open spec fn has_tab(tabs: Seq<TabState>, key: TabKey) -> bool {
    exists|i: int| 0 <= i < tabs.len() && tabs[i].key == key
}

/// The position of a key among the tabs (meaningful where `has_tab`).
pub open spec fn tab_index(tabs: Seq<TabState>, key: TabKey) -> int {
    choose|i: int| 0 <= i < tabs.len() && tabs[i].key == key
}

/// The invariant of a tab manager: no key is open twice, and a tab is active
/// exactly when some tab is open, and then it is one of the open tabs.
pub open spec fn tabs_wf(v: TabManagerView) -> bool {
    &&& v.tabs.len() < usize::MAX
    &&& forall|i: int, j: int|
        0 <= i < v.tabs.len() && 0 <= j < v.tabs.len() && i != j ==> #[trigger] v.tabs[i].key
            != #[trigger] v.tabs[j].key
    &&& (v.tabs.len() == 0 <==> v.active.is_none())
    &&& (v.active matches Some(k) ==> has_tab(v.tabs, k))
}

/// The state after `open_or_focus` of an item, and what it reports.
pub open spec fn open_spec(v: TabManagerView, item: ItemKey) -> (TabManagerView, OpenTabOutcome) {
    let key = TabKey(item);
    if has_tab(v.tabs, key) {
        (
            TabManagerView { tabs: v.tabs, active: Some(key) },
            OpenTabOutcome { key, index: tab_index(v.tabs, key) as usize, already_open: true },
        )
    } else {
        (
            TabManagerView { tabs: v.tabs.push(TabState { key, pinned: false }), active: Some(key) },
            OpenTabOutcome { key, index: v.tabs.len() as usize, already_open: false },
        )
    }
}

/// The tab that becomes active when the tab at `closed_index` is closed.
pub open spec fn next_active_spec(
    v: TabManagerView,
    key: TabKey,
    closed_index: int,
) -> Option<TabKey> {
    let rest = v.tabs.remove(closed_index);
    if rest.len() == 0 {
        None
    } else if v.active == Some(key) {
        let back = if closed_index >= 1 { closed_index - 1 } else { 0 };
        let fallback = if back <= rest.len() - 1 { back } else { rest.len() - 1 };
        Some(rest[fallback].key)
    } else {
        v.active
    }
}

/// The state after closing a tab, and what `close` reports; `None` when the
/// key is not open (the state then stays as it is).
pub open spec fn close_spec(v: TabManagerView, key: TabKey) -> (TabManagerView, Option<
    CloseTabOutcome,
>) {
    if has_tab(v.tabs, key) {
        let i = tab_index(v.tabs, key);
        let next = next_active_spec(v, key, i);
        (
            TabManagerView { tabs: v.tabs.remove(i), active: next },
            Some(CloseTabOutcome { closed: key, closed_index: i as usize, next_active: next }),
        )
    } else {
        (v, None)
    }
}

/// The tabs after moving the tab at `from` to position `to`, and whether
/// anything moved.
pub open spec fn reorder_spec(tabs: Seq<TabState>, from: int, to: int) -> (Seq<TabState>, bool) {
    if from >= tabs.len() || to >= tabs.len() || from == to || from < 0 || to < 0 {
        (tabs, false)
    } else {
        (tabs.remove(from).insert(to, tabs[from]), true)
    }
}

impl View for TabManager {
    type V = TabManagerView;

    closed spec fn view(&self) -> TabManagerView {
        TabManagerView { tabs: self.tabs@, active: self.active }
    }
}

impl Default for TabManager {
    fn default() -> (r: Self)
        ensures
            r@.tabs.len() == 0,
            r@.active.is_none(),
            tabs_wf(r@),
    {
        TabManager { tabs: Vec::new(), active: None }
    }
}

proof fn lemma_index_unique(tabs: Seq<TabState>, key: TabKey, i: int)
    requires
        forall|a: int, b: int|
            0 <= a < tabs.len() && 0 <= b < tabs.len() && a != b ==> #[trigger] tabs[a].key
                != #[trigger] tabs[b].key,
        0 <= i < tabs.len(),
        tabs[i].key == key,
    ensures
        has_tab(tabs, key),
        tab_index(tabs, key) == i,
{
    assert(has_tab(tabs, key));
    let j = tab_index(tabs, key);
    assert(tabs[j].key == key);
}

impl TabManager {
    pub fn tabs(&self) -> (r: &[TabState])
        ensures
            r@ == self@.tabs,
    {
        self.tabs.as_slice()
    }

    pub fn active(&self) -> (r: Option<TabKey>)
        ensures
            r == self@.active,
    {
        self.active
    }

    fn index_of(&self, tab_key: TabKey) -> (r: Option<usize>)
        requires
            tabs_wf(self@),
        ensures
            r.is_none() <==> !has_tab(self@.tabs, tab_key),
            r matches Some(i) ==> i == tab_index(self@.tabs, tab_key) && i < self@.tabs.len(),
    {
        let mut i: usize = 0;
        while i < self.tabs.len()
            invariant
                i <= self.tabs.len(),
                tabs_wf(self@),
                forall|j: int| 0 <= j < i ==> #[trigger] self.tabs@[j].key != tab_key,
            decreases self.tabs.len() - i,
        {
            if self.tabs[i].key == tab_key {
                proof {
                    lemma_index_unique(self.tabs@, tab_key, i as int);
                }
                return Some(i);
            }
            i = i + 1;
        }
        None
    }

    /// Focuses the tab of an item, opening it at the end if it is not open.
    pub fn open_or_focus(&mut self, item_key: ItemKey) -> (r: OpenTabOutcome)
        requires
            tabs_wf(old(self)@),
            old(self)@.tabs.len() + 1 < usize::MAX,
        ensures
            tabs_wf(final(self)@),
            (final(self)@, r) == open_spec(old(self)@, item_key),
    {
        let tab_key = TabKey::from(item_key);
        if let Some(index) = self.index_of(tab_key) {
            self.active = Some(tab_key);
            return OpenTabOutcome { key: tab_key, index, already_open: true };
        }
        let index = self.tabs.len();
        self.tabs.push(TabState::new(tab_key));
        self.active = Some(tab_key);
        proof {
            assert(self.tabs@[index as int].key == tab_key);
        }
        OpenTabOutcome { key: tab_key, index, already_open: false }
    }

    /// Closes the tab of a key; the tab before it becomes active if it was.
    pub fn close(&mut self, tab_key: TabKey) -> (r: Option<CloseTabOutcome>)
        requires
            tabs_wf(old(self)@),
        ensures
            tabs_wf(final(self)@),
            (final(self)@, r) == close_spec(old(self)@, tab_key),
    {
        let ghost old_v = self@;
        let closed_index = match self.index_of(tab_key) {
            Some(i) => i,
            None => return None,
        };
        self.tabs.remove(closed_index);
        let next_active = if self.tabs.len() == 0 {
            None
        } else if self.active == Some(tab_key) {
            let back = if closed_index >= 1 { closed_index - 1 } else { 0 };
            let fallback_index = if back <= self.tabs.len() - 1 { back } else { self.tabs.len() - 1 };
            Some(self.tabs[fallback_index].key)
        } else {
            self.active
        };
        self.active = next_active;
        proof {
            let rest = old_v.tabs.remove(closed_index as int);
            assert(self.tabs@ == rest);
            assert forall|a: int, b: int|
                0 <= a < rest.len() && 0 <= b < rest.len() && a != b implies #[trigger] rest[a].key
                    != #[trigger] rest[b].key by {
                let a2 = if a < closed_index { a } else { a + 1 };
                let b2 = if b < closed_index { b } else { b + 1 };
                assert(rest[a] == old_v.tabs[a2]);
                assert(rest[b] == old_v.tabs[b2]);
            }
            if let Some(k) = next_active {
                if old_v.active != Some(tab_key) {
                    let j = tab_index(old_v.tabs, k);
                    assert(old_v.tabs[j].key == k);
                    assert(j != closed_index as int);
                    let j2 = if j < closed_index { j } else { j - 1 };
                    assert(rest[j2] == old_v.tabs[j]);
                    assert(has_tab(rest, k));
                } else {
                    let back = if closed_index >= 1 { closed_index - 1 } else { 0 };
                    let f = if back <= rest.len() - 1 { back as int } else { rest.len() - 1 };
                    assert(rest[f].key == k);
                    assert(has_tab(rest, k));
                }
            }
        }
        Some(CloseTabOutcome { closed: tab_key, closed_index, next_active })
    }

    /// Makes an open tab active; `false`, and no change, when it is not open.
    pub fn set_active(&mut self, tab_key: TabKey) -> (r: bool)
        requires
            tabs_wf(old(self)@),
        ensures
            tabs_wf(final(self)@),
            r == has_tab(old(self)@.tabs, tab_key),
            final(self)@.tabs == old(self)@.tabs,
            final(self)@.active == (if r { Some(tab_key) } else { old(self)@.active }),
    {
        if self.index_of(tab_key).is_some() {
            self.active = Some(tab_key);
            return true;
        }
        false
    }

    /// Moves the tab at `from` to position `to`.
    pub fn reorder(&mut self, from: usize, to: usize) -> (r: bool)
        requires
            tabs_wf(old(self)@),
        ensures
            tabs_wf(final(self)@),
            (final(self)@.tabs, r) == reorder_spec(old(self)@.tabs, from as int, to as int),
            final(self)@.active == old(self)@.active,
    {
        if from >= self.tabs.len() || to >= self.tabs.len() || from == to {
            return false;
        }
        let ghost old_tabs = self.tabs@;
        let tab = self.tabs.remove(from);
        self.tabs.insert(to, tab);
        proof {
            let mid = old_tabs.remove(from as int);
            let new_tabs = mid.insert(to as int, old_tabs[from as int]);
            assert(self.tabs@ == new_tabs);
            lemma_reorder_keeps_keys(old_tabs, from as int, to as int);
            if let Some(k) = self.active {
                let j = tab_index(old_tabs, k);
                assert(old_tabs[j].key == k);
                assert(has_tab(new_tabs, k));
            }
        }
        true
    }
}

/// Moving a tab keeps the set of tabs: every old tab is still there, every
/// tab there was there before, and no key appears twice.
pub proof fn lemma_reorder_keeps_keys(tabs: Seq<TabState>, from: int, to: int)
    requires
        0 <= from < tabs.len(),
        0 <= to < tabs.len(),
        forall|a: int, b: int|
            0 <= a < tabs.len() && 0 <= b < tabs.len() && a != b ==> #[trigger] tabs[a].key
                != #[trigger] tabs[b].key,
    ensures
        ({
            let new_tabs = tabs.remove(from).insert(to, tabs[from]);
            &&& new_tabs.len() == tabs.len()
            &&& forall|t: TabState| new_tabs.contains(t) <==> tabs.contains(t)
            &&& forall|a: int, b: int|
                0 <= a < new_tabs.len() && 0 <= b < new_tabs.len() && a != b
                    ==> #[trigger] new_tabs[a].key != #[trigger] new_tabs[b].key
            &&& forall|k: TabKey| has_tab(new_tabs, k) <==> has_tab(tabs, k)
        }),
{
    let mid = tabs.remove(from);
    let new_tabs = mid.insert(to, tabs[from]);
    // position in the new sequence -> position in the old one
    let src = |a: int|
        if a == to {
            from
        } else {
            let m = if a < to { a } else { a - 1 };
            if m < from { m } else { m + 1 }
        };
    assert forall|a: int| 0 <= a < new_tabs.len() implies new_tabs[a] == tabs[src(a)]
        && 0 <= src(a) < tabs.len() by {
        if a != to {
            let m = if a < to { a } else { a - 1 };
            assert(new_tabs[a] == mid[m]);
        }
    }
    assert forall|a: int, b: int|
        0 <= a < new_tabs.len() && 0 <= b < new_tabs.len() && a != b implies #[trigger] new_tabs[a].key
            != #[trigger] new_tabs[b].key by {
        assert(new_tabs[a] == tabs[src(a)]);
        assert(new_tabs[b] == tabs[src(b)]);
        assert(src(a) != src(b));
    }
    assert forall|k: TabKey| has_tab(new_tabs, k) <==> has_tab(tabs, k) by {
        if has_tab(new_tabs, k) {
            let a = choose|a: int| 0 <= a < new_tabs.len() && new_tabs[a].key == k;
            assert(new_tabs[a] == tabs[src(a)]);
        }
        if has_tab(tabs, k) {
            let i = choose|i: int| 0 <= i < tabs.len() && tabs[i].key == k;
            // the inverse of src
            let a = if i == from {
                to
            } else {
                let m = if i < from { i } else { i - 1 };
                if m < to { m } else { m + 1 }
            };
            assert(0 <= a < new_tabs.len());
            assert(src(a) == i);
            assert(new_tabs[a] == tabs[i]);
        }
    }
    assert forall|t: TabState| new_tabs.contains(t) <==> tabs.contains(t) by {
        if new_tabs.contains(t) {
            let a = choose|a: int| 0 <= a < new_tabs.len() && new_tabs[a] == t;
            assert(new_tabs[a] == tabs[src(a)]);
        }
        if tabs.contains(t) {
            let i = choose|i: int| 0 <= i < tabs.len() && tabs[i] == t;
            let a = if i == from {
                to
            } else {
                let m = if i < from { i } else { i - 1 };
                if m < to { m } else { m + 1 }
            };
            assert(src(a) == i);
            assert(new_tabs[a] == tabs[i]);
        }
    }
}

/// Opening an item shows its tab and makes it the active one.
pub proof fn law_open_focuses_item(v: TabManagerView, item: ItemKey)
    requires
        tabs_wf(v),
        v.tabs.len() + 1 < usize::MAX,
    ensures
        has_tab(open_spec(v, item).0.tabs, TabKey(item)),
        open_spec(v, item).0.active == Some(TabKey(item)),
        open_spec(v, item).1.index < open_spec(v, item).0.tabs.len(),
        open_spec(v, item).0.tabs[open_spec(v, item).1.index as int].key == TabKey(item),
{
    let key = TabKey(item);
    if has_tab(v.tabs, key) {
        let i = tab_index(v.tabs, key);
        assert(v.tabs[i].key == key);
    } else {
        let t = v.tabs.push(TabState { key, pinned: false });
        assert(t[v.tabs.len() as int].key == key);
    }
}

/// Opening the same item twice opens one tab: the second call finds it at
/// the index that the first reported and changes nothing.
pub proof fn law_open_is_idempotent(v: TabManagerView, item: ItemKey)
    requires
        tabs_wf(v),
        v.tabs.len() + 1 < usize::MAX,
    ensures
        ({
            let (v1, o1) = open_spec(v, item);
            let (v2, o2) = open_spec(v1, item);
            &&& v2 == v1
            &&& o2.already_open
            &&& o2.index == o1.index
            &&& o2.key == o1.key
        }),
{
    let key = TabKey(item);
    let (v1, o1) = open_spec(v, item);
    law_open_focuses_item(v, item);
    if !has_tab(v.tabs, key) {
        let n = v.tabs.len() as int;
        assert(v1.tabs[n].key == key);
        assert forall|a: int, b: int|
            0 <= a < v1.tabs.len() && 0 <= b < v1.tabs.len() && a != b implies #[trigger] v1.tabs[a].key
                != #[trigger] v1.tabs[b].key by {
            if a == n {
                assert(v1.tabs[b] == v.tabs[b]);
            } else if b == n {
                assert(v1.tabs[a] == v.tabs[a]);
            } else {
                assert(v1.tabs[a] == v.tabs[a]);
                assert(v1.tabs[b] == v.tabs[b]);
            }
        }
        lemma_index_unique(v1.tabs, key, n);
    } else {
        let i = tab_index(v.tabs, key);
        assert(v.tabs[i].key == key);
        lemma_index_unique(v.tabs, key, i);
    }
}

/// Closing a tab removes exactly that key: it is no longer open, every other
/// key stays open or closed as it was, and the order of the rest is kept.
pub proof fn law_close_removes_only_that_tab(v: TabManagerView, key: TabKey)
    requires
        tabs_wf(v),
        has_tab(v.tabs, key),
    ensures
        ({
            let (v1, r) = close_spec(v, key);
            &&& r is Some
            &&& !has_tab(v1.tabs, key)
            &&& forall|k: TabKey| k != key ==> (has_tab(v1.tabs, k) <==> has_tab(v.tabs, k))
            &&& v1.tabs == v.tabs.remove(tab_index(v.tabs, key))
        }),
{
    let i = tab_index(v.tabs, key);
    assert(v.tabs[i].key == key);
    let rest = v.tabs.remove(i);
    if has_tab(rest, key) {
        let a = choose|a: int| 0 <= a < rest.len() && rest[a].key == key;
        let a2 = if a < i { a } else { a + 1 };
        assert(rest[a] == v.tabs[a2]);
    }
    assert forall|k: TabKey| k != key implies (has_tab(rest, k) <==> has_tab(v.tabs, k)) by {
        if has_tab(rest, k) {
            let a = choose|a: int| 0 <= a < rest.len() && rest[a].key == k;
            let a2 = if a < i { a } else { a + 1 };
            assert(rest[a] == v.tabs[a2]);
        }
        if has_tab(v.tabs, k) {
            let b = choose|b: int| 0 <= b < v.tabs.len() && v.tabs[b].key == k;
            assert(b != i);
            let b2 = if b < i { b } else { b - 1 };
            assert(rest[b2] == v.tabs[b]);
        }
    }
}

/// Opening an item that had no tab and closing its tab again leaves the
/// same tabs, in the same order.
pub proof fn law_open_then_close_restores_tabs(v: TabManagerView, item: ItemKey)
    requires
        tabs_wf(v),
        v.tabs.len() + 1 < usize::MAX,
        !has_tab(v.tabs, TabKey(item)),
    ensures
        close_spec(open_spec(v, item).0, TabKey(item)).0.tabs == v.tabs,
{
    let key = TabKey(item);
    let v1 = open_spec(v, item).0;
    let n = v.tabs.len() as int;
    assert(v1.tabs[n].key == key);
    assert forall|a: int, b: int|
        0 <= a < v1.tabs.len() && 0 <= b < v1.tabs.len() && a != b implies #[trigger] v1.tabs[a].key
            != #[trigger] v1.tabs[b].key by {
        if a == n {
            assert(v1.tabs[b] == v.tabs[b]);
        } else if b == n {
            assert(v1.tabs[a] == v.tabs[a]);
        } else {
            assert(v1.tabs[a] == v.tabs[a]);
            assert(v1.tabs[b] == v.tabs[b]);
        }
    }
    lemma_index_unique(v1.tabs, key, n);
    assert(v1.tabs.remove(n) =~= v.tabs);
}

/// Closing a tab that is not the active one leaves the active tab as it
/// was, and reports it as the next active tab.
pub proof fn law_close_keeps_other_active(v: TabManagerView, key: TabKey)
    requires
        tabs_wf(v),
        has_tab(v.tabs, key),
        v.active != Some(key),
    ensures
        close_spec(v, key).0.active == v.active,
        close_spec(v, key).1 matches Some(out) && out.next_active == v.active,
{
    let i = tab_index(v.tabs, key);
    assert(v.tabs[i].key == key);
    if v.tabs.remove(i).len() == 0 {
        let k = v.active->Some_0;
        let j = choose|j: int| 0 <= j < v.tabs.len() && v.tabs[j].key == k;
        assert(j == i);
    }
}

/// Closing the active tab, with other tabs left, makes the tab just before
/// it active, or the one after it when it was the first.
pub proof fn law_close_active_moves_to_neighbour(v: TabManagerView, key: TabKey, i: int)
    requires
        tabs_wf(v),
        0 <= i < v.tabs.len(),
        v.tabs[i].key == key,
        v.active == Some(key),
        v.tabs.len() > 1,
    ensures
        close_spec(v, key).0.active == Some(if i > 0 { v.tabs[i - 1].key } else { v.tabs[1].key }),
{
    lemma_index_unique(v.tabs, key, i);
    let rest = v.tabs.remove(i);
    if i > 0 {
        assert(rest[i - 1] == v.tabs[i - 1]);
    } else {
        assert(rest[0] == v.tabs[1]);
    }
}

} // verus!
