use vstd::prelude::*;

verus! {

/// One visited page, as the history service stores and returns it.
#[derive(Debug, PartialEq, Eq)]
pub struct HistoryEntry {
    pub id: Option<i64>,
    pub url: String,
    pub title: String,
    pub visited_at: Option<String>,
}

/// One bookmarked page, as the history service stores and returns it.
#[derive(Debug, PartialEq, Eq)]
pub struct Bookmark {
    pub id: Option<i64>,
    pub url: String,
    pub title: String,
    pub created_at: Option<String>,
}

/// Metadata for one saved login. The password itself is never part of it:
/// it lives in the OS keyring, under the origin's service name and the
/// user name.
#[derive(Debug, PartialEq, Eq)]
pub struct CredentialMeta {
    pub origin: String,
    pub username: String,
    pub saved_at: String,
}

/// A history entry as plain values.
pub struct HistoryEntryView {
    pub id: Option<i64>,
    pub url: Seq<char>,
    pub title: Seq<char>,
    pub visited_at: Option<Seq<char>>,
}

/// A bookmark as plain values.
pub struct BookmarkView {
    pub id: Option<i64>,
    pub url: Seq<char>,
    pub title: Seq<char>,
    pub created_at: Option<Seq<char>>,
}

/// A credential's metadata as plain values.
pub struct CredentialView {
    pub origin: Seq<char>,
    pub username: Seq<char>,
    pub saved_at: Seq<char>,
}

/// The characters of an optional string.
pub open spec fn opt_view(s: Option<String>) -> Option<Seq<char>> {
    match s {
        Some(t) => Some(t@),
        None => None,
    }
}

impl View for HistoryEntry {
    type V = HistoryEntryView;

    open spec fn view(&self) -> HistoryEntryView {
        HistoryEntryView {
            id: self.id,
            url: self.url@,
            title: self.title@,
            visited_at: opt_view(self.visited_at),
        }
    }
}

impl View for Bookmark {
    type V = BookmarkView;

    open spec fn view(&self) -> BookmarkView {
        BookmarkView {
            id: self.id,
            url: self.url@,
            title: self.title@,
            created_at: opt_view(self.created_at),
        }
    }
}

impl View for CredentialMeta {
    type V = CredentialView;

    open spec fn view(&self) -> CredentialView {
        CredentialView { origin: self.origin@, username: self.username@, saved_at: self.saved_at@ }
    }
}

impl Default for HistoryEntry {
    fn default() -> (e: Self)
        ensures
            e@ == (HistoryEntryView { id: None, url: seq![], title: seq![], visited_at: None }),
    {
        HistoryEntry { id: None, url: String::new(), title: String::new(), visited_at: None }
    }
}

impl Default for Bookmark {
    fn default() -> (b: Self)
        ensures
            b@ == (BookmarkView { id: None, url: seq![], title: seq![], created_at: None }),
    {
        Bookmark { id: None, url: String::new(), title: String::new(), created_at: None }
    }
}

impl Clone for CredentialMeta {
    fn clone(&self) -> (c: Self)
        ensures
            c@ == self@,
    {
        CredentialMeta {
            origin: self.origin.clone(),
            username: self.username.clone(),
            saved_at: self.saved_at.clone(),
        }
    }
}

impl HistoryEntry {
    /// The entry that records a visit to `url`: no id and no time yet, both
    /// of which the history service assigns.
    pub fn visit(url: String, title: String) -> (e: Self)
        ensures
            e@ == (HistoryEntryView { id: None, url: url@, title: title@, visited_at: None }),
    {
        HistoryEntry { id: None, url, title, visited_at: None }
    }
}

impl Bookmark {
    /// A bookmark to be added for `url`: no id and no time yet, both of which
    /// the history service assigns.
    pub fn new_for(url: String, title: String) -> (b: Self)
        ensures
            b@ == (BookmarkView { id: None, url: url@, title: title@, created_at: None }),
    {
        Bookmark { id: None, url, title, created_at: None }
    }
}

} // verus!
