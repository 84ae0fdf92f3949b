use vstd::prelude::*;

verus! {

/// What happens in the find bar.
#[derive(Debug, PartialEq, Eq, Structural, Clone, Copy)]
pub enum FindEvent {
    /// The search text was edited.
    TextChanged,
    /// Enter was pressed in the search entry.
    Activated,
    /// Shift+Enter was pressed in the search entry.
    ShiftReturn,
    /// The "next match" button was clicked.
    NextClicked,
    /// The "previous match" button was clicked.
    PreviousClicked,
    /// The bar was closed.
    Closed,
}

/// What the find bar asks of the page's find controller.
#[derive(Debug, PartialEq, Eq)]
pub enum FindCommand {
    /// Nothing.
    Nothing,
    /// End the search and clear the highlighted matches.
    Finish,
    /// Search for this text.
    Search(String),
    /// Go to the next match.
    Next,
    /// Go to the previous match.
    Previous,
}

/// What the find bar asks of the page when `event` happens while the
/// search entry holds `text`.
pub fn find_command(event: FindEvent, text: &str) -> (c: FindCommand)
    ensures
        event == FindEvent::TextChanged ==> if text@.len() == 0 {
            c is Finish
        } else {
            c matches FindCommand::Search(t) && t@ == text@
        },
        event == FindEvent::Activated ==> if text@.len() == 0 {
            c is Nothing
        } else {
            c is Next
        },
        event == FindEvent::ShiftReturn ==> c is Previous,
        event == FindEvent::NextClicked ==> c is Next,
        event == FindEvent::PreviousClicked ==> c is Previous,
        event == FindEvent::Closed ==> c is Finish,
{
    match event {
        FindEvent::TextChanged => if text.is_empty() {
            FindCommand::Finish
        } else {
            FindCommand::Search(String::from_str(text))
        },
        FindEvent::Activated => if text.is_empty() {
            FindCommand::Nothing
        } else {
            FindCommand::Next
        },
        FindEvent::ShiftReturn => FindCommand::Previous,
        FindEvent::NextClicked => FindCommand::Next,
        FindEvent::PreviousClicked => FindCommand::Previous,
        FindEvent::Closed => FindCommand::Finish,
    }
}

} // verus!
