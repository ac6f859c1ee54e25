use vstd::prelude::*;

use crate::tabs::CloseTabOutcome;

verus! {

/// The application's window, as seen by specifications.
pub struct WindowView<W> {
    pub id: Option<W>,
    pub focused: bool,
}

/// What the application knows of its window: its identifier once it has
/// opened, and whether it has the keyboard focus.
pub struct WindowState<W> {
    id: Option<W>,
    focused: bool,
}

impl<W> View for WindowState<W> {
    type V = WindowView<W>;

    closed spec fn view(&self) -> WindowView<W> {
        WindowView { id: self.id, focused: self.focused }
    }
}

impl<W: Copy> WindowState<W> {
    /// A window that has not opened yet and has no focus.
    pub fn new() -> (window: Self)
        ensures
            window@ == (WindowView::<W> { id: None, focused: false }),
    {
        WindowState { id: None, focused: false }
    }

    /// Records that the window opened with identifier `id`.
    pub fn opened(&mut self, id: W)
        ensures
            final(self)@ == (WindowView { id: Some(id), focused: old(self)@.focused }),
    {
        self.id = Some(id);
    }

    /// Records that the window gained (`true`) or lost the focus.
    pub fn set_focused(&mut self, focused: bool)
        ensures
            final(self)@ == (WindowView { id: old(self)@.id, focused }),
    {
        self.focused = focused;
    }

    /// The window that title-bar requests (minimize, maximize, close, drag,
    /// resize) act on; none before the window has opened, and then the
    /// request does nothing.
    pub fn id(&self) -> (id: Option<W>)
        ensures
            id == self@.id,
    {
        self.id
    }

    /// Whether the window has the keyboard focus.
    pub fn focused(&self) -> (focused: bool)
        ensures
            focused == self@.focused,
    {
        self.focused
    }

    /// The window to close after closing a tab: the window, when closing
    /// asked for it (the tab was the last one) and the window has opened;
    /// otherwise none.
    pub fn window_to_close(&self, outcome: CloseTabOutcome) -> (close: Option<W>)
        ensures
            close == (if outcome == CloseTabOutcome::CloseWindow {
                self@.id
            } else {
                None
            }),
    {
        match outcome {
            CloseTabOutcome::CloseWindow => self.id,
            CloseTabOutcome::Closed => None,
            CloseTabOutcome::NotFound => None,
        }
    }
}

} // verus!
