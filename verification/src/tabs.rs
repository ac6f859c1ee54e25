use vstd::prelude::*;

use crate::input::ApplicationShortcut;
use crate::text::{decimal_digits, push_decimal, string_push};

verus! {

/// Identifies a tab for as long as the tab list exists; identifiers are
/// never reused.
#[derive(Debug, Clone, Copy, PartialEq, Eq, Structural)]
pub struct TabId(pub u64);

/// A tab: its identifier, the title shown for it, the title it falls back
/// to when the terminal resets its title, and the session it runs.
pub struct Tab<S> {
    pub id: TabId,
    pub title: String,
    pub fallback_title: String,
    pub session: S,
}

/// What closing a tab amounted to.
#[derive(Debug, Clone, Copy, PartialEq, Eq, Structural)]
pub enum CloseTabOutcome {
    /// The tab was removed.
    Closed,
    /// The tab is the last one; the window closes instead.
    CloseWindow,
    /// No tab has that identifier.
    NotFound,
}

/// An event reported by the session of a tab.
pub enum TabEvent {
    /// The terminal has new output to draw.
    Wakeup,
    /// The terminal set its title, or reset it (`None`).
    TitleChanged(Option<String>),
    /// The terminal rang its bell.
    Bell,
    /// The program in the terminal exited.
    ChildExited,
    /// The terminal asked to be closed.
    ExitRequested,
}

/// What carrying out an application shortcut leaves for the caller to do.
#[derive(Debug, Clone, Copy, PartialEq, Eq, Structural)]
pub enum ShortcutEffect {
    /// A new tab is to be opened (its session started) by the caller.
    OpenTab,
    /// The active tab was closed, with this outcome.
    TabClosed(CloseTabOutcome),
    /// Another tab was selected (or the selection stayed).
    Selected,
}

/// A tab list, as seen by specifications.
pub struct TabsView<S> {
    pub tabs: Seq<Tab<S>>,
    pub active: TabId,
    pub hovered: Option<TabId>,
    pub next_id: u64,
}

/// Whether some tab has identifier `id`.
pub open spec fn has_tab<S>(tabs: Seq<Tab<S>>, id: TabId) -> bool {
    exists|i: int| 0 <= i < tabs.len() && #[trigger] tabs[i].id == id
}

/// The position of the tab with identifier `id`.
pub open spec fn position_of<S>(tabs: Seq<Tab<S>>, id: TabId) -> int {
    choose|i: int| 0 <= i < tabs.len() && #[trigger] tabs[i].id == id
}

/// Identifiers are unique and below the next identifier to be handed out,
/// and a non-empty list has its active tab among its tabs.
pub open spec fn tabs_well_formed<S>(view: TabsView<S>) -> bool {
    &&& forall|i: int, j: int|
        0 <= i < j < view.tabs.len() ==> #[trigger] view.tabs[i].id != #[trigger] view.tabs[j].id
    &&& forall|i: int| 0 <= i < view.tabs.len() ==> #[trigger] view.tabs[i].id.0 < view.next_id
    &&& view.tabs.len() > 0 ==> has_tab(view.tabs, view.active)
}

/// The title a tab falls back to: "Tab " and its identifier in decimal.
pub open spec fn fallback_title_for(id: TabId) -> Seq<char> {
    seq!['T', 'a', 'b', ' '] + decimal_digits(id.0 as nat)
}

/// What closing tab `id` amounts to.
pub open spec fn close_outcome<S>(view: TabsView<S>, id: TabId) -> CloseTabOutcome {
    if !has_tab(view.tabs, id) {
        CloseTabOutcome::NotFound
    } else if view.tabs.len() == 1 {
        CloseTabOutcome::CloseWindow
    } else {
        CloseTabOutcome::Closed
    }
}

/// The tab list after closing tab `id`: unchanged unless the tab exists and
/// is not the last one; otherwise the tab is removed, it is no longer
/// hovered, and when it was active the tab that took its place (or, when it
/// was the rightmost, the new rightmost tab) becomes active.
pub open spec fn after_close<S>(view: TabsView<S>, id: TabId) -> TabsView<S> {
    if close_outcome(view, id) != CloseTabOutcome::Closed {
        view
    } else {
        let index = position_of(view.tabs, id);
        let tabs = view.tabs.remove(index);
        TabsView {
            tabs,
            active: if view.active == id {
                tabs[if index < tabs.len() { index } else { tabs.len() - 1 }].id
            } else {
                view.active
            },
            hovered: if view.hovered == Some(id) { None } else { view.hovered },
            next_id: view.next_id,
        }
    }
}

/// The tab list after selecting the tab to the right of the active one,
/// wrapping around; unchanged when the active tab is not in the list.
pub open spec fn after_select_next<S>(view: TabsView<S>) -> TabsView<S> {
    if has_tab(view.tabs, view.active) {
        TabsView {
            active: view.tabs[(position_of(view.tabs, view.active) + 1) % (view.tabs.len() as int)].id,
            ..view
        }
    } else {
        view
    }
}

/// The tab list after selecting the tab to the left of the active one,
/// wrapping around; unchanged when the active tab is not in the list.
pub open spec fn after_select_previous<S>(view: TabsView<S>) -> TabsView<S> {
    if has_tab(view.tabs, view.active) {
        let index = position_of(view.tabs, view.active);
        TabsView {
            active: view.tabs[if index == 0 { view.tabs.len() - 1 } else { index - 1 }].id,
            ..view
        }
    } else {
        view
    }
}

/// The characters of an optional title.
pub open spec fn title_view(title: Option<String>) -> Option<Seq<char>> {
    match title {
        Some(t) => Some(t@),
        None => None,
    }
}

/// `after` is `before` with the title of tab `id` set to `title`, or to the
/// tab's fallback title when `title` is `None`; everything else is kept.
pub open spec fn retitled<S>(before: TabsView<S>, after: TabsView<S>, id: TabId, title: Option<Seq<char>>) -> bool {
    &&& after.active == before.active
    &&& after.hovered == before.hovered
    &&& after.next_id == before.next_id
    &&& after.tabs.len() == before.tabs.len()
    &&& forall|i: int|
        0 <= i < before.tabs.len() && #[trigger] before.tabs[i].id != id ==> after.tabs[i]
            == before.tabs[i]
    &&& forall|i: int|
        0 <= i < before.tabs.len() && #[trigger] before.tabs[i].id == id ==> {
            &&& after.tabs[i].id == id
            &&& after.tabs[i].fallback_title == before.tabs[i].fallback_title
            &&& after.tabs[i].session == before.tabs[i].session
            &&& after.tabs[i].title@ == (match title {
                Some(t) => t,
                None => before.tabs[i].fallback_title@,
            })
        }
}

/// In a well-formed list, the tab at `i` is the one found for its identifier.
pub proof fn lemma_position_of_unique<S>(view: TabsView<S>, i: int)
    requires
        tabs_well_formed(view),
        0 <= i < view.tabs.len(),
    ensures
        has_tab(view.tabs, view.tabs[i].id),
        position_of(view.tabs, view.tabs[i].id) == i,
{
    let id = view.tabs[i].id;
    assert(view.tabs[i].id == id);
    let j = position_of(view.tabs, id);
    if j < i {
        assert(view.tabs[j].id != view.tabs[i].id);
    } else if i < j {
        assert(view.tabs[i].id != view.tabs[j].id);
    }
}

/// The open tabs of a window, which one is active and which one is hovered.
pub struct TabList<S> {
    tabs: Vec<Tab<S>>,
    active_tab: TabId,
    hovered_tab: Option<TabId>,
    next_tab_id: u64,
}

impl<S> View for TabList<S> {
    type V = TabsView<S>;

    closed spec fn view(&self) -> TabsView<S> {
        TabsView {
            tabs: self.tabs@,
            active: self.active_tab,
            hovered: self.hovered_tab,
            next_id: self.next_tab_id,
        }
    }
}

impl<S> TabList<S> {
    /// Every tab list is well formed.
    #[verifier::type_invariant]
    spec fn well_formed(self) -> bool {
        tabs_well_formed(self@)
    }

    /// An empty list; the first tab created gets identifier 1.
    pub fn new() -> (list: Self)
        ensures
            list@.tabs.len() == 0,
            list@.active == TabId(1),
            list@.hovered is None,
            list@.next_id == 1,
            tabs_well_formed(list@),
    {
        let list = TabList { tabs: Vec::new(), active_tab: TabId(1), hovered_tab: None, next_tab_id: 1 };
        assert(list@.tabs.len() == 0);
        list
    }

    /// The tabs, left to right.
    pub fn tabs(&self) -> (tabs: &[Tab<S>])
        ensures
            tabs@ == self@.tabs,
            tabs_well_formed(self@),
    {
        proof {
            use_type_invariant(self);
        }
        self.tabs.as_slice()
    }

    /// The active tab.
    pub fn active_tab(&self) -> (id: TabId)
        ensures
            id == self@.active,
    {
        self.active_tab
    }

    /// The tab under the pointer, if any.
    pub fn hovered_tab(&self) -> (id: Option<TabId>)
        ensures
            id == self@.hovered,
    {
        self.hovered_tab
    }

    /// The identifier the next tab created will get.
    pub fn next_tab_id(&self) -> (id: TabId)
        ensures
            id == TabId(self@.next_id),
    {
        TabId(self.next_tab_id)
    }

    /// The position of the tab with identifier `id`.
    fn position(&self, id: TabId) -> (index: Option<usize>)
        ensures
            tabs_well_formed(self@),
            index is None <==> !has_tab(self@.tabs, id),
            index matches Some(i) ==> i < self@.tabs.len() && i == position_of(self@.tabs, id)
                && self@.tabs[i as int].id == id,
    {
        proof {
            use_type_invariant(self);
        }
        let mut i: usize = 0;
        while i < self.tabs.len()
            invariant
                tabs_well_formed(self@),
                i <= self.tabs@.len(),
                forall|j: int| 0 <= j < i ==> #[trigger] self.tabs@[j].id != id,
            decreases self.tabs.len() - i,
        {
            if self.tabs[i].id == id {
                proof {
                    lemma_position_of_unique(self@, i as int);
                }
                return Some(i);
            }
            i += 1;
        }
        None
    }

    /// Opens a tab that runs `session`, makes it active and clears the hover.
    /// Its title is its fallback title, "Tab " and its identifier.
    pub fn create_tab(&mut self, session: S) -> (id: TabId)
        requires
            old(self)@.next_id < u64::MAX,
        ensures
            tabs_well_formed(final(self)@),
            id == TabId(old(self)@.next_id),
            !has_tab(old(self)@.tabs, id),
            final(self)@.tabs.len() == old(self)@.tabs.len() + 1,
            final(self)@.tabs.subrange(0, old(self)@.tabs.len() as int) == old(self)@.tabs,
            final(self)@.tabs.last().id == id,
            final(self)@.tabs.last().title@ == fallback_title_for(id),
            final(self)@.tabs.last().fallback_title@ == fallback_title_for(id),
            final(self)@.tabs.last().session == session,
            final(self)@.active == id,
            final(self)@.hovered is None,
            final(self)@.next_id == old(self)@.next_id + 1,
    {
        proof {
            use_type_invariant(&*self);
        }
        let ghost old_view = self@;
        let id = TabId(self.next_tab_id);
        let mut fallback_title = String::new();
        string_push(&mut fallback_title, 'T');
        string_push(&mut fallback_title, 'a');
        string_push(&mut fallback_title, 'b');
        string_push(&mut fallback_title, ' ');
        push_decimal(&mut fallback_title, id.0);
        assert(fallback_title@ =~= fallback_title_for(id));
        let title = fallback_title.clone();
        let mut tabs: Vec<Tab<S>> = Vec::new();
        std::mem::swap(&mut tabs, &mut self.tabs);
        tabs.push(Tab { id, title, fallback_title, session });
        self.next_tab_id = self.next_tab_id + 1;
        self.active_tab = id;
        self.hovered_tab = None;
        proof {
            assert(tabs@.subrange(0, old_view.tabs.len() as int) =~= old_view.tabs);
            assert forall|i: int| 0 <= i < old_view.tabs.len() implies #[trigger] old_view.tabs[i].id != id by {
                assert(old_view.tabs[i].id.0 < old_view.next_id);
            }
            assert(tabs@[tabs@.len() - 1].id == id);
            assert forall|i: int, j: int| 0 <= i < j < tabs@.len() implies #[trigger] tabs@[i].id
                != #[trigger] tabs@[j].id by {
                if j < old_view.tabs.len() {
                    assert(tabs@[i] == old_view.tabs[i]);
                    assert(tabs@[j] == old_view.tabs[j]);
                } else {
                    assert(tabs@[i] == old_view.tabs[i]);
                }
            }
            assert forall|i: int| 0 <= i < tabs@.len() implies #[trigger] tabs@[i].id.0 < old_view.next_id + 1 by {
                if i < old_view.tabs.len() {
                    assert(tabs@[i] == old_view.tabs[i]);
                }
            }
            assert(has_tab(tabs@, id));
        }
        self.tabs = tabs;
        id
    }

    /// Closes tab `id`; see [`after_close`] and [`close_outcome`].
    pub fn close_tab(&mut self, id: TabId) -> (outcome: CloseTabOutcome)
        ensures
            outcome == close_outcome(old(self)@, id),
            final(self)@ == after_close(old(self)@, id),
            tabs_well_formed(final(self)@),
    {
        proof {
            use_type_invariant(&*self);
        }
        let ghost old_view = self@;
        let index = match self.position(id) {
            Some(index) => index,
            None => return CloseTabOutcome::NotFound,
        };
        if self.tabs.len() == 1 {
            return CloseTabOutcome::CloseWindow;
        }
        let was_active = self.active_tab == id;
        let mut tabs: Vec<Tab<S>> = Vec::new();
        std::mem::swap(&mut tabs, &mut self.tabs);
        // The removed tab, and with it its session, is dropped here.
        let _closed = tabs.remove(index);
        match self.hovered_tab {
            Some(hovered) => {
                if hovered == id {
                    self.hovered_tab = None;
                }
            },
            None => {},
        }
        if was_active {
            let replacement = if index < tabs.len() { index } else { tabs.len() - 1 };
            self.active_tab = tabs[replacement].id;
        }
        proof {
            assert(tabs@ =~= old_view.tabs.remove(index as int));
            lemma_close_keeps_well_formed(old_view, id);
            assert(after_close(old_view, id).tabs == tabs@);
        }
        self.tabs = tabs;
        proof {
            assert(self@ == after_close(old_view, id));
        }
        CloseTabOutcome::Closed
    }

    /// Makes tab `id` active when it exists.
    pub fn select_tab(&mut self, id: TabId)
        ensures
            tabs_well_formed(final(self)@),
            final(self)@ == (if has_tab(old(self)@.tabs, id) {
                TabsView { active: id, ..old(self)@ }
            } else {
                old(self)@
            }),
    {
        proof {
            use_type_invariant(&*self);
        }
        if self.position(id).is_some() {
            self.active_tab = id;
        }
    }

    /// Records that the pointer entered (`is_hovered`) or left tab `id`;
    /// leaving clears the hover only when it was on that tab.
    pub fn set_hovered(&mut self, id: TabId, is_hovered: bool)
        ensures
            tabs_well_formed(final(self)@),
            final(self)@ == (if is_hovered {
                TabsView { hovered: Some(id), ..old(self)@ }
            } else if old(self)@.hovered == Some(id) {
                TabsView { hovered: None, ..old(self)@ }
            } else {
                old(self)@
            }),
    {
        proof {
            use_type_invariant(&*self);
        }
        if is_hovered {
            self.hovered_tab = Some(id);
        } else {
            match self.hovered_tab {
                Some(hovered) => {
                    if hovered == id {
                        self.hovered_tab = None;
                    }
                },
                None => {},
            }
        }
    }

    /// Selects the tab to the right of the active one; see [`after_select_next`].
    pub fn select_next_tab(&mut self)
        ensures
            tabs_well_formed(final(self)@),
            final(self)@ == after_select_next(old(self)@),
    {
        let index = match self.position(self.active_tab) {
            Some(index) => index,
            None => return,
        };
        let count = self.tabs.len();
        let next = (index + 1) % count;
        proof {
            lemma_position_of_unique(self@, next as int);
        }
        self.active_tab = self.tabs[next].id;
    }

    /// Selects the tab to the left of the active one; see [`after_select_previous`].
    pub fn select_previous_tab(&mut self)
        ensures
            tabs_well_formed(final(self)@),
            final(self)@ == after_select_previous(old(self)@),
    {
        let index = match self.position(self.active_tab) {
            Some(index) => index,
            None => return,
        };
        let previous = if index == 0 { self.tabs.len() - 1 } else { index - 1 };
        proof {
            lemma_position_of_unique(self@, previous as int);
        }
        self.active_tab = self.tabs[previous].id;
    }

    /// Sets the title of tab `id`: the given title, or its fallback title
    /// when the terminal resets it. Nothing changes when no tab has `id`.
    pub fn set_title(&mut self, id: TabId, title: Option<String>)
        ensures
            tabs_well_formed(final(self)@),
            retitled(old(self)@, final(self)@, id, title_view(title)),
    {
        proof {
            use_type_invariant(&*self);
        }
        let ghost old_view = self@;
        let index = match self.position(id) {
            Some(index) => index,
            None => return,
        };
        let mut tabs: Vec<Tab<S>> = Vec::new();
        std::mem::swap(&mut tabs, &mut self.tabs);
        let tab = tabs.remove(index);
        let Tab { id: tab_id, title: _, fallback_title, session } = tab;
        let new_title = match title {
            Some(title) => title,
            None => fallback_title.clone(),
        };
        tabs.insert(index, Tab { id: tab_id, title: new_title, fallback_title, session });
        proof {
            assert forall|i: int| 0 <= i < old_view.tabs.len() && i != index implies #[trigger] tabs@[i]
                == old_view.tabs[i] by {
            }
            assert forall|i: int| 0 <= i < old_view.tabs.len() && #[trigger] old_view.tabs[i].id == id implies i
                == index by {
                lemma_position_of_unique(old_view, i);
            }
            assert forall|i: int, j: int| 0 <= i < j < tabs@.len() implies #[trigger] tabs@[i].id
                != #[trigger] tabs@[j].id by {
                assert(tabs@[i].id == old_view.tabs[i].id);
                assert(tabs@[j].id == old_view.tabs[j].id);
            }
            assert forall|i: int| 0 <= i < tabs@.len() implies #[trigger] tabs@[i].id.0 < old_view.next_id by {
                assert(tabs@[i].id == old_view.tabs[i].id);
            }
            if old_view.tabs.len() > 0 {
                let k = choose|k: int| 0 <= k < old_view.tabs.len() && #[trigger] old_view.tabs[k].id == old_view.active;
                assert(tabs@[k].id == old_view.active);
            }
        }
        self.tabs = tabs;
    }

    /// Carries out an application shortcut: closing the active tab or
    /// selecting a neighbour here; opening a tab is left to the caller,
    /// which starts the session and calls [`TabList::create_tab`].
    pub fn execute_shortcut(&mut self, shortcut: ApplicationShortcut) -> (effect: ShortcutEffect)
        ensures
            tabs_well_formed(final(self)@),
            match shortcut {
                ApplicationShortcut::New => effect == ShortcutEffect::OpenTab && final(self)@ == old(self)@,
                ApplicationShortcut::CloseActive => {
                    &&& effect == ShortcutEffect::TabClosed(close_outcome(old(self)@, old(self)@.active))
                    &&& final(self)@ == after_close(old(self)@, old(self)@.active)
                },
                ApplicationShortcut::SelectNext => effect == ShortcutEffect::Selected && final(self)@
                    == after_select_next(old(self)@),
                ApplicationShortcut::SelectPrevious => effect == ShortcutEffect::Selected && final(self)@
                    == after_select_previous(old(self)@),
            },
    {
        proof {
            use_type_invariant(&*self);
        }
        match shortcut {
            ApplicationShortcut::New => ShortcutEffect::OpenTab,
            ApplicationShortcut::CloseActive => {
                let active = self.active_tab;
                ShortcutEffect::TabClosed(self.close_tab(active))
            },
            ApplicationShortcut::SelectNext => {
                self.select_next_tab();
                ShortcutEffect::Selected
            },
            ApplicationShortcut::SelectPrevious => {
                self.select_previous_tab();
                ShortcutEffect::Selected
            },
        }
    }

    /// Applies an event reported by the session of tab `id`: a title change
    /// updates the title, an exit closes the tab; returns what closing
    /// amounted to, or `None` when the event closes nothing.
    pub fn handle_terminal_event(&mut self, id: TabId, event: TabEvent) -> (outcome: Option<CloseTabOutcome>)
        ensures
            tabs_well_formed(final(self)@),
            match event {
                TabEvent::ChildExited | TabEvent::ExitRequested => {
                    &&& outcome == Some(close_outcome(old(self)@, id))
                    &&& final(self)@ == after_close(old(self)@, id)
                },
                TabEvent::Wakeup | TabEvent::Bell => outcome is None && final(self)@ == old(self)@,
                TabEvent::TitleChanged(title) => outcome is None && retitled(
                    old(self)@,
                    final(self)@,
                    id,
                    title_view(title),
                ),
            },
    {
        proof {
            use_type_invariant(&*self);
        }
        match event {
            TabEvent::Wakeup => None,
            TabEvent::Bell => None,
            TabEvent::ChildExited => Some(self.close_tab(id)),
            TabEvent::ExitRequested => Some(self.close_tab(id)),
            TabEvent::TitleChanged(title) => {
                self.set_title(id, title);
                None
            },
        }
    }
}

/// Closing a tab keeps the list well formed.
pub proof fn lemma_close_keeps_well_formed<S>(view: TabsView<S>, id: TabId)
    requires
        tabs_well_formed(view),
    ensures
        tabs_well_formed(after_close(view, id)),
{
    if close_outcome(view, id) == CloseTabOutcome::Closed {
        let index = position_of(view.tabs, id);
        let result = after_close(view, id);
        let tabs = result.tabs;
        assert(tabs == view.tabs.remove(index));
        assert forall|i: int| 0 <= i < tabs.len() implies #[trigger] tabs[i] == view.tabs[if i < index {
            i
        } else {
            i + 1
        }] by {}
        assert forall|i: int, j: int| 0 <= i < j < tabs.len() implies #[trigger] tabs[i].id
            != #[trigger] tabs[j].id by {
            let a = if i < index { i } else { i + 1 };
            let b = if j < index { j } else { j + 1 };
            assert(tabs[i] == view.tabs[a]);
            assert(tabs[j] == view.tabs[b]);
            assert(view.tabs[a].id != view.tabs[b].id);
        }
        assert forall|i: int| 0 <= i < tabs.len() implies #[trigger] tabs[i].id.0 < result.next_id by {
            assert(tabs[i] == view.tabs[if i < index { i } else { i + 1 }]);
        }
        if view.active != id {
            let k = choose|k: int| 0 <= k < view.tabs.len() && #[trigger] view.tabs[k].id == view.active;
            let m = if k < index { k } else { k - 1 };
            assert(k != index);
            assert(tabs[m] == view.tabs[k]);
            assert(tabs[m].id == result.active);
        } else {
            let r = if index < tabs.len() { index } else { tabs.len() - 1 };
            assert(tabs[r].id == result.active);
        }
    }
}

/// Closing an identifier no tab has answers `NotFound` and changes nothing,
/// however many tabs there are; the window is asked to close only when its
/// single tab is the one closed; otherwise the tab is closed.
pub proof fn lemma_close_outcomes<S>(view: TabsView<S>, id: TabId)
    ensures
        !has_tab(view.tabs, id) ==> close_outcome(view, id) == CloseTabOutcome::NotFound
            && after_close(view, id) == view,
        close_outcome(view, id) == CloseTabOutcome::CloseWindow <==> (view.tabs.len() == 1
            && view.tabs[0].id == id),
        close_outcome(view, id) == CloseTabOutcome::CloseWindow ==> after_close(view, id) == view,
        close_outcome(view, id) == CloseTabOutcome::Closed <==> (has_tab(view.tabs, id)
            && view.tabs.len() > 1),
{
    if view.tabs.len() == 1 && view.tabs[0].id == id {
        assert(has_tab(view.tabs, id));
    }
    if view.tabs.len() == 1 && has_tab(view.tabs, id) {
        let i = choose|i: int| 0 <= i < view.tabs.len() && #[trigger] view.tabs[i].id == id;
        assert(i == 0);
    }
}

/// Closing a tab removes exactly that tab, keeping the others in order.
/// Closing a tab other than the active one keeps the active tab; closing the
/// active tab activates the tab to its right, or to its left when it was the
/// rightmost.
pub proof fn lemma_close_keeps_or_replaces_active<S>(view: TabsView<S>, id: TabId)
    requires
        tabs_well_formed(view),
        has_tab(view.tabs, id),
        view.tabs.len() > 1,
    ensures
        after_close(view, id).tabs.len() == view.tabs.len() - 1,
        forall|i: int|
            0 <= i < position_of(view.tabs, id) ==> #[trigger] after_close(view, id).tabs[i]
                == view.tabs[i],
        forall|i: int|
            position_of(view.tabs, id) <= i < view.tabs.len() - 1 ==> #[trigger] after_close(
                view,
                id,
            ).tabs[i] == view.tabs[i + 1],
        view.tabs[position_of(view.tabs, id)].id == id,
        view.active != id ==> after_close(view, id).active == view.active,
        view.active == id ==> after_close(view, id).active == (if position_of(view.tabs, id) + 1
            < view.tabs.len() {
            view.tabs[position_of(view.tabs, id) + 1].id
        } else {
            view.tabs[position_of(view.tabs, id) - 1].id
        }),
{
}

/// Closing a tab never leaves a non-empty list empty: closing the last tab
/// closes the window instead.
pub proof fn lemma_close_never_empties<S>(view: TabsView<S>, id: TabId)
    requires
        view.tabs.len() > 0,
    ensures
        after_close(view, id).tabs.len() > 0,
        close_outcome(view, id) == CloseTabOutcome::Closed ==> after_close(view, id).tabs.len()
            == view.tabs.len() - 1,
{
}

/// Selecting the next tab and then the previous one returns to the tab that
/// was active.
pub proof fn lemma_next_then_previous<S>(view: TabsView<S>)
    requires
        tabs_well_formed(view),
    ensures
        after_select_previous(after_select_next(view)) == view,
{
    if has_tab(view.tabs, view.active) {
        let n = view.tabs.len() as int;
        let index = position_of(view.tabs, view.active);
        let next = (index + 1) % n;
        lemma_position_of_unique(view, next);
        lemma_position_of_unique(view, index);
        let middle = after_select_next(view);
        assert(middle.tabs == view.tabs);
        assert(position_of(middle.tabs, middle.active) == next);
        if index + 1 < n {
            vstd::arithmetic::div_mod::lemma_small_mod((index + 1) as nat, n as nat);
        } else {
            vstd::arithmetic::div_mod::lemma_mod_self_0(n);
        }
    }
}

/// Selecting the previous tab and then the next one returns to the tab that
/// was active.
pub proof fn lemma_previous_then_next<S>(view: TabsView<S>)
    requires
        tabs_well_formed(view),
    ensures
        after_select_next(after_select_previous(view)) == view,
{
    if has_tab(view.tabs, view.active) {
        let n = view.tabs.len() as int;
        let index = position_of(view.tabs, view.active);
        let previous = if index == 0 { n - 1 } else { index - 1 };
        lemma_position_of_unique(view, previous);
        lemma_position_of_unique(view, index);
        let middle = after_select_previous(view);
        assert(position_of(middle.tabs, middle.active) == previous);
        if index == 0 {
            vstd::arithmetic::div_mod::lemma_mod_self_0(n);
        } else {
            vstd::arithmetic::div_mod::lemma_small_mod((previous + 1) as nat, n as nat);
        }
    }
}

} // verus!
