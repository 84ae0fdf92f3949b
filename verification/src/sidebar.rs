use vstd::prelude::*;

verus! {

/// The applets that share the docked sidebar.
#[derive(Debug, PartialEq, Eq, Structural, Clone, Copy)]
pub enum SidebarPanel {
    History,
    Bookmarks,
    Notes,
    Downloads,
}

/// Whether the sidebar is open and which applet it holds; the applet stays
/// selected while the sidebar is closed.
#[derive(Debug, PartialEq, Eq, Structural, Clone, Copy)]
pub struct Sidebar {
    pub shown: bool,
    pub visible: SidebarPanel,
}

/// The sidebar after its applet `p` is toggled: closed if it was open on
/// `p`, otherwise open on `p`.
pub open spec fn toggled(s: Sidebar, p: SidebarPanel) -> Sidebar {
    if s.shown && s.visible == p {
        Sidebar { shown: false, visible: s.visible }
    } else {
        Sidebar { shown: true, visible: p }
    }
}

/// The name under which the applet's page is kept.
pub open spec fn panel_name(p: SidebarPanel) -> Seq<char> {
    match p {
        SidebarPanel::History => "history"@,
        SidebarPanel::Bookmarks => "bookmarks"@,
        SidebarPanel::Notes => "notes"@,
        SidebarPanel::Downloads => "downloads"@,
    }
}

/// The heading shown above the applet.
pub open spec fn panel_title(p: SidebarPanel) -> Seq<char> {
    match p {
        SidebarPanel::History => "HISTORY"@,
        SidebarPanel::Bookmarks => "BOOKMARKS"@,
        SidebarPanel::Notes => "NOTES"@,
        SidebarPanel::Downloads => "DOWNLOADS"@,
    }
}

impl SidebarPanel {
    /// The name under which the applet's page is kept.
    pub fn name(&self) -> (n: String)
        ensures
            n@ == panel_name(*self),
            *self == SidebarPanel::History ==> n@ == "history"@,
            *self == SidebarPanel::Bookmarks ==> n@ == "bookmarks"@,
            *self == SidebarPanel::Notes ==> n@ == "notes"@,
            *self == SidebarPanel::Downloads ==> n@ == "downloads"@,
    {
        match self {
            SidebarPanel::History => String::from_str("history"),
            SidebarPanel::Bookmarks => String::from_str("bookmarks"),
            SidebarPanel::Notes => String::from_str("notes"),
            SidebarPanel::Downloads => String::from_str("downloads"),
        }
    }

    /// The heading shown above the applet.
    pub fn title(&self) -> (t: String)
        ensures
            t@ == panel_title(*self),
            *self == SidebarPanel::History ==> t@ == "HISTORY"@,
            *self == SidebarPanel::Bookmarks ==> t@ == "BOOKMARKS"@,
            *self == SidebarPanel::Notes ==> t@ == "NOTES"@,
            *self == SidebarPanel::Downloads ==> t@ == "DOWNLOADS"@,
    {
        match self {
            SidebarPanel::History => String::from_str("HISTORY"),
            SidebarPanel::Bookmarks => String::from_str("BOOKMARKS"),
            SidebarPanel::Notes => String::from_str("NOTES"),
            SidebarPanel::Downloads => String::from_str("DOWNLOADS"),
        }
    }

    /// Whether opening the applet reloads its contents from the history
    /// service.
    pub fn reloads_on_open(&self) -> (r: bool)
        ensures
            r <==> (*self == SidebarPanel::History || *self == SidebarPanel::Bookmarks),
    {
        match self {
            SidebarPanel::History => true,
            SidebarPanel::Bookmarks => true,
            _ => false,
        }
    }
}

impl Sidebar {
    /// The sidebar of a new window: closed, on the first applet.
    pub fn new() -> (s: Self)
        ensures
            !s.shown,
            s.visible == SidebarPanel::History,
    {
        Sidebar { shown: false, visible: SidebarPanel::History }
    }

    /// Toggles the applet `p`; returns whether the sidebar is now open on it.
    pub fn toggle(&mut self, p: SidebarPanel) -> (opened: bool)
        ensures
            *final(self) == toggled(*old(self), p),
            opened == final(self).shown,
    {
        if self.shown && self.visible == p {
            self.shown = false;
            false
        } else {
            self.visible = p;
            self.shown = true;
            true
        }
    }

    /// Closes the sidebar, keeping its applet selected.
    pub fn close(&mut self)
        ensures
            !final(self).shown,
            final(self).visible == old(self).visible,
    {
        self.shown = false;
    }

    /// Whether the tabs are dimmed: exactly while the sidebar is open.
    pub fn dims_tabs(&self) -> (r: bool)
        ensures
            r == self.shown,
    {
        self.shown
    }
}

/// The sidebar is open on the applet `p`.
pub open spec fn showing(s: Sidebar, p: SidebarPanel) -> bool {
    s.shown && s.visible == p
}

/// Toggling an applet shows it exactly when it was not showing, and
/// toggling it twice puts back whether it was showing.
pub proof fn toggle_twice_restores(s: Sidebar, p: SidebarPanel)
    ensures
        showing(toggled(s, p), p) <==> !showing(s, p),
        toggled(s, p).visible == p,
        showing(toggled(toggled(s, p), p), p) == showing(s, p),
        showing(s, p) ==> toggled(toggled(s, p), p) == s,
{
}

} // verus!
