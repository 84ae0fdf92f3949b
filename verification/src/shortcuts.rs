use vstd::prelude::*;

verus! {

/// The keys that the window's shortcuts name; every other key is `Other`.
#[derive(Debug, PartialEq, Eq, Structural, Clone, Copy)]
pub enum NamedKey {
    F5,
    F6,
    Escape,
    Left,
    Right,
    Tab,
    IsoLeftTab,
    Other,
}

/// A key press: the key, the character it types (if any) and the modifiers
/// held.
#[derive(Debug, PartialEq, Eq, Structural, Clone, Copy)]
pub struct KeyPress {
    pub key: NamedKey,
    pub typed: Option<char>,
    pub ctrl: bool,
    pub shift: bool,
    pub alt: bool,
}

/// What a window shortcut does.
#[derive(Debug, PartialEq, Eq, Structural, Clone, Copy)]
pub enum ShortcutAction {
    Reload,
    ReloadBypassCache,
    FocusAddressBar,
    CloseSidebar,
    StopLoading,
    GoBack,
    GoForward,
    NextTab,
    PreviousTab,
    ToggleNotes,
    NewTab,
    CloseTab,
    ToggleHistory,
    ToggleBookmarks,
    ToggleDownloads,
    BookmarkPage,
    ZoomIn,
    ZoomOut,
    ZoomReset,
    /// Select the tab at this position.
    SelectTab(u32),
}

/// The answer to a key press: the action to take, if any, and whether the
/// press is consumed (not handed on to the page).
#[derive(Debug, PartialEq, Eq, Structural, Clone, Copy)]
pub struct Shortcut {
    pub action: Option<ShortcutAction>,
    pub consumed: bool,
}

/// The Unicode lowercase mapping of `c`, as `char::to_lowercase` yields it:
/// one or more characters.
pub uninterp spec fn lowercase_mapping(c: char) -> Seq<char>;

/// Calls `char::to_lowercase` and collects the characters it yields. The
/// contract names the result and states what std documents of it: there is
/// at least one character. Of ASCII it states what the Unicode mapping is
/// there: `A`-`Z` become `a`-`z`, every other ASCII character maps to
/// itself. Of other characters it states nothing more.
#[verifier::external_body]
fn lowercase_chars(c: char) -> (r: Vec<char>)
    ensures
        r@ == lowercase_mapping(c),
        r@.len() >= 1,
        'A' <= c <= 'Z' ==> r@.len() == 1 && r@[0] as int == c as int + 32,
        (c as int) < 128 && !('A' <= c <= 'Z') ==> r@ == seq![c],
{
    c.to_lowercase().collect()
}

/// The character a typed `c` is looked up by: the first character of its
/// lowercase mapping.
pub open spec fn lookup_char(c: char) -> char {
    lowercase_mapping(c)[0]
}

/// The lowercase form of an ASCII character: `A`-`Z` become `a`-`z`, the
/// others stay as they are.
pub open spec fn ascii_lowercase(c: char) -> char {
    if 'A' <= c <= 'Z' {
        ((c as int) + 32) as char
    } else {
        c
    }
}

/// Consumes the press with `a`.
pub open spec fn take(a: ShortcutAction) -> Shortcut {
    Shortcut { action: Some(a), consumed: true }
}

/// Neither an action nor consumed: the press goes on to the page.
pub open spec fn pass_on() -> Shortcut {
    Shortcut { action: None, consumed: false }
}

/// The shortcut for a typed character `c` (already lowercased), with `n`
/// tabs open.
pub open spec fn character_shortcut(c: char, ctrl: bool, shift: bool, n: nat) -> Shortcut {
    if !ctrl {
        pass_on()
    } else if c == 'n' && !shift {
        take(ShortcutAction::ToggleNotes)
    } else if c == 't' && !shift {
        take(ShortcutAction::NewTab)
    } else if c == 'w' {
        take(ShortcutAction::CloseTab)
    } else if c == 'l' {
        take(ShortcutAction::FocusAddressBar)
    } else if c == 'r' {
        take(if shift { ShortcutAction::ReloadBypassCache } else { ShortcutAction::Reload })
    } else if c == 'h' && !shift {
        take(ShortcutAction::ToggleHistory)
    } else if c == 'b' && !shift {
        take(ShortcutAction::ToggleBookmarks)
    } else if c == 'j' && !shift {
        take(ShortcutAction::ToggleDownloads)
    } else if c == 'd' {
        take(ShortcutAction::BookmarkPage)
    } else if c == '=' || c == '+' {
        take(ShortcutAction::ZoomIn)
    } else if c == '-' {
        take(ShortcutAction::ZoomOut)
    } else if c == '0' {
        take(ShortcutAction::ZoomReset)
    } else if '1' <= c <= '8' {
        let idx = c as int - '1' as int;
        if idx < n {
            take(ShortcutAction::SelectTab(idx as u32))
        } else {
            Shortcut { action: None, consumed: true }
        }
    } else if c == '9' {
        if n >= 1 {
            take(ShortcutAction::SelectTab((n - 1) as u32))
        } else {
            Shortcut { action: None, consumed: true }
        }
    } else {
        pass_on()
    }
}

/// The window's answer to a key press, given the press's character already
/// lowercased, whether the sidebar is open and how many tabs there are.
pub open spec fn shortcut_of(press: KeyPress, lowered: Option<char>, sidebar_open: bool, n: nat) -> Shortcut {
    let ctrl = press.ctrl;
    let shift = press.shift;
    let alt = press.alt;
    match press.key {
        NamedKey::F5 => take(
            if ctrl {
                ShortcutAction::ReloadBypassCache
            } else {
                ShortcutAction::Reload
            },
        ),
        NamedKey::F6 => take(ShortcutAction::FocusAddressBar),
        NamedKey::Escape => if sidebar_open {
            take(ShortcutAction::CloseSidebar)
        } else {
            Shortcut { action: Some(ShortcutAction::StopLoading), consumed: false }
        },
        NamedKey::Left if alt => take(ShortcutAction::GoBack),
        NamedKey::Right if alt => take(ShortcutAction::GoForward),
        NamedKey::Tab if ctrl => take(
            if shift {
                ShortcutAction::PreviousTab
            } else {
                ShortcutAction::NextTab
            },
        ),
        NamedKey::IsoLeftTab if ctrl => take(ShortcutAction::PreviousTab),
        _ => match lowered {
            Some(c) => character_shortcut(c, ctrl, shift, n),
            None => pass_on(),
        },
    }
}

/// Consumes the press with `a`.
fn consume(a: ShortcutAction) -> (s: Shortcut)
    ensures
        s == take(a),
{
    Shortcut { action: Some(a), consumed: true }
}

/// The answer to a press typing the lowercased character `c`.
fn character_shortcut_for(c: char, ctrl: bool, shift: bool, n_pages: u32) -> (s: Shortcut)
    ensures
        s == character_shortcut(c, ctrl, shift, n_pages as nat),
{
    if !ctrl {
        Shortcut { action: None, consumed: false }
    } else if c == 'n' && !shift {
        consume(ShortcutAction::ToggleNotes)
    } else if c == 't' && !shift {
        consume(ShortcutAction::NewTab)
    } else if c == 'w' {
        consume(ShortcutAction::CloseTab)
    } else if c == 'l' {
        consume(ShortcutAction::FocusAddressBar)
    } else if c == 'r' {
        consume(if shift { ShortcutAction::ReloadBypassCache } else { ShortcutAction::Reload })
    } else if c == 'h' && !shift {
        consume(ShortcutAction::ToggleHistory)
    } else if c == 'b' && !shift {
        consume(ShortcutAction::ToggleBookmarks)
    } else if c == 'j' && !shift {
        consume(ShortcutAction::ToggleDownloads)
    } else if c == 'd' {
        consume(ShortcutAction::BookmarkPage)
    } else if c == '=' || c == '+' {
        consume(ShortcutAction::ZoomIn)
    } else if c == '-' {
        consume(ShortcutAction::ZoomOut)
    } else if c == '0' {
        consume(ShortcutAction::ZoomReset)
    } else if '1' <= c && c <= '8' {
        let idx = (c as u32) - ('1' as u32);
        if idx < n_pages {
            consume(ShortcutAction::SelectTab(idx))
        } else {
            Shortcut { action: None, consumed: true }
        }
    } else if c == '9' {
        if n_pages >= 1 {
            consume(ShortcutAction::SelectTab(n_pages - 1))
        } else {
            Shortcut { action: None, consumed: true }
        }
    } else {
        Shortcut { action: None, consumed: false }
    }
}

/// The window's answer to `press` when the typed character has already been
/// lowercased into `lowered`.
pub fn shortcut_with_lowered(press: KeyPress, lowered: Option<char>, sidebar_open: bool, n_pages: u32) -> (s: Shortcut)
    ensures
        s == shortcut_of(press, lowered, sidebar_open, n_pages as nat),
{
    let ctrl = press.ctrl;
    let shift = press.shift;
    let alt = press.alt;
    match press.key {
        NamedKey::F5 => Shortcut {
            action: Some(
                if ctrl {
                    ShortcutAction::ReloadBypassCache
                } else {
                    ShortcutAction::Reload
                },
            ),
            consumed: true,
        },
        NamedKey::F6 => Shortcut { action: Some(ShortcutAction::FocusAddressBar), consumed: true },
        NamedKey::Escape => if sidebar_open {
            Shortcut { action: Some(ShortcutAction::CloseSidebar), consumed: true }
        } else {
            Shortcut { action: Some(ShortcutAction::StopLoading), consumed: false }
        },
        NamedKey::Left if alt => Shortcut { action: Some(ShortcutAction::GoBack), consumed: true },
        NamedKey::Right if alt => Shortcut {
            action: Some(ShortcutAction::GoForward),
            consumed: true,
        },
        NamedKey::Tab if ctrl => Shortcut {
            action: Some(
                if shift {
                    ShortcutAction::PreviousTab
                } else {
                    ShortcutAction::NextTab
                },
            ),
            consumed: true,
        },
        NamedKey::IsoLeftTab if ctrl => Shortcut {
            action: Some(ShortcutAction::PreviousTab),
            consumed: true,
        },
        _ => match lowered {
            Some(c) => character_shortcut_for(c, ctrl, shift, n_pages),
            None => Shortcut { action: None, consumed: false },
        },
    }
}

/// The window's answer to `press`, with the sidebar open or not and
/// `n_pages` tabs: the character typed is looked up by the first character
/// of its lowercase mapping, as `char::to_lowercase` gives it.
pub fn shortcut_for(press: KeyPress, sidebar_open: bool, n_pages: u32) -> (s: Shortcut)
    ensures
        s == shortcut_of(
            press,
            match press.typed {
                Some(c) => Some(lookup_char(c)),
                None => None,
            },
            sidebar_open,
            n_pages as nat,
        ),
        press.typed matches Some(c) ==> ((c as int) < 128 ==> s == shortcut_of(
            press,
            Some(ascii_lowercase(c)),
            sidebar_open,
            n_pages as nat,
        )),
{
    let lowered = match press.typed {
        Some(c) => {
            let mapped = lowercase_chars(c);
            let l = mapped[0];
            proof {
                if 'A' <= c <= 'Z' {
                    assert(l == ((c as int) + 32) as char);
                }
            }
            Some(l)
        },
        None => None,
    };
    shortcut_with_lowered(press, lowered, sidebar_open, n_pages)
}

} // verus!

verus! {

/// Ctrl with a digit from 1 to 8 selects that tab when there are enough
/// tabs, and Ctrl+9 selects the last tab; either way the press is consumed.
pub proof fn digit_shortcuts_select_tabs(press: KeyPress, d: char, sidebar_open: bool, n: nat)
    requires
        press.key == NamedKey::Other,
        press.ctrl,
        '1' <= d <= '9',
        n <= u32::MAX,
    ensures
        shortcut_of(press, Some(d), sidebar_open, n).consumed,
        d != '9' && (d as int) - 49 < n ==> shortcut_of(press, Some(d), sidebar_open, n).action
            == Some(ShortcutAction::SelectTab(((d as int) - 49) as u32)),
        d == '9' && n >= 1 ==> shortcut_of(press, Some(d), sidebar_open, n).action == Some(
            ShortcutAction::SelectTab((n - 1) as u32),
        ),
{
}

} // verus!

verus! {

/// `A`-`Z` are looked up as `a`-`z`; lowercase letters, digits and the
/// other ASCII characters as themselves.
pub proof fn ascii_letters_are_looked_up_lowercase(c: char)
    ensures
        'A' <= c <= 'Z' ==> ascii_lowercase(c) as int == c as int + 32,
        'A' <= c <= 'Z' ==> 'a' <= ascii_lowercase(c) <= 'z',
        (c as int) < 128 && !('A' <= c <= 'Z') ==> ascii_lowercase(c) == c,
{
}

/// The letter and symbol shortcuts with Ctrl held, as the shortcut table
/// lists them: Ctrl+W closes the tab and Ctrl+L focuses the address bar
/// with or without Shift; Ctrl+R reloads, bypassing the cache with Shift;
/// Ctrl+D bookmarks; Ctrl+= / Ctrl++ / Ctrl+- / Ctrl+0 zoom; Ctrl+N, Ctrl+T,
/// Ctrl+H, Ctrl+B and Ctrl+J work only without Shift. Each is consumed.
pub proof fn ctrl_letter_shortcuts(press: KeyPress, sidebar_open: bool, n: nat)
    requires
        press.key == NamedKey::Other,
        press.ctrl,
    ensures
        shortcut_of(press, Some('w'), sidebar_open, n) == (Shortcut {
            action: Some(ShortcutAction::CloseTab),
            consumed: true,
        }),
        shortcut_of(press, Some('l'), sidebar_open, n) == (Shortcut {
            action: Some(ShortcutAction::FocusAddressBar),
            consumed: true,
        }),
        shortcut_of(press, Some('r'), sidebar_open, n) == (Shortcut {
            action: Some(
                if press.shift {
                    ShortcutAction::ReloadBypassCache
                } else {
                    ShortcutAction::Reload
                },
            ),
            consumed: true,
        }),
        shortcut_of(press, Some('d'), sidebar_open, n) == (Shortcut {
            action: Some(ShortcutAction::BookmarkPage),
            consumed: true,
        }),
        shortcut_of(press, Some('='), sidebar_open, n) == (Shortcut {
            action: Some(ShortcutAction::ZoomIn),
            consumed: true,
        }),
        shortcut_of(press, Some('+'), sidebar_open, n) == (Shortcut {
            action: Some(ShortcutAction::ZoomIn),
            consumed: true,
        }),
        shortcut_of(press, Some('-'), sidebar_open, n) == (Shortcut {
            action: Some(ShortcutAction::ZoomOut),
            consumed: true,
        }),
        shortcut_of(press, Some('0'), sidebar_open, n) == (Shortcut {
            action: Some(ShortcutAction::ZoomReset),
            consumed: true,
        }),
        !press.shift ==> shortcut_of(press, Some('n'), sidebar_open, n) == (Shortcut {
            action: Some(ShortcutAction::ToggleNotes),
            consumed: true,
        }),
        !press.shift ==> shortcut_of(press, Some('t'), sidebar_open, n) == (Shortcut {
            action: Some(ShortcutAction::NewTab),
            consumed: true,
        }),
        !press.shift ==> shortcut_of(press, Some('h'), sidebar_open, n) == (Shortcut {
            action: Some(ShortcutAction::ToggleHistory),
            consumed: true,
        }),
        !press.shift ==> shortcut_of(press, Some('b'), sidebar_open, n) == (Shortcut {
            action: Some(ShortcutAction::ToggleBookmarks),
            consumed: true,
        }),
        !press.shift ==> shortcut_of(press, Some('j'), sidebar_open, n) == (Shortcut {
            action: Some(ShortcutAction::ToggleDownloads),
            consumed: true,
        }),
        press.shift ==> shortcut_of(press, Some('n'), sidebar_open, n) == (Shortcut {
            action: None,
            consumed: false,
        }),
        press.shift ==> shortcut_of(press, Some('t'), sidebar_open, n) == (Shortcut {
            action: None,
            consumed: false,
        }),
{
}

/// Without Ctrl, a character key is no shortcut: the press goes on to the
/// page.
pub proof fn plain_typing_goes_to_the_page(press: KeyPress, c: char, sidebar_open: bool, n: nat)
    requires
        press.key == NamedKey::Other,
        !press.ctrl,
    ensures
        shortcut_of(press, Some(c), sidebar_open, n) == (Shortcut { action: None, consumed: false }),
        shortcut_of(press, None, sidebar_open, n) == (Shortcut { action: None, consumed: false }),
{
}

/// The named-key shortcuts: F5 reloads (bypassing the cache with Ctrl); F6
/// focuses the address bar; Escape closes an open sidebar, and otherwise
/// stops loading and lets the page see the key; Alt+Left / Alt+Right go back
/// and forward; Ctrl+Tab and Ctrl+Shift+Tab cycle through the tabs.
pub proof fn named_key_shortcuts(press: KeyPress, lowered: Option<char>, sidebar_open: bool, n: nat)
    ensures
        press.key == NamedKey::F5 ==> shortcut_of(press, lowered, sidebar_open, n) == (Shortcut {
            action: Some(
                if press.ctrl {
                    ShortcutAction::ReloadBypassCache
                } else {
                    ShortcutAction::Reload
                },
            ),
            consumed: true,
        }),
        press.key == NamedKey::F6 ==> shortcut_of(press, lowered, sidebar_open, n) == (Shortcut {
            action: Some(ShortcutAction::FocusAddressBar),
            consumed: true,
        }),
        press.key == NamedKey::Escape && sidebar_open ==> shortcut_of(press, lowered, sidebar_open, n)
            == (Shortcut { action: Some(ShortcutAction::CloseSidebar), consumed: true }),
        press.key == NamedKey::Escape && !sidebar_open ==> shortcut_of(
            press,
            lowered,
            sidebar_open,
            n,
        ) == (Shortcut { action: Some(ShortcutAction::StopLoading), consumed: false }),
        press.key == NamedKey::Left && press.alt ==> shortcut_of(press, lowered, sidebar_open, n)
            == (Shortcut { action: Some(ShortcutAction::GoBack), consumed: true }),
        press.key == NamedKey::Right && press.alt ==> shortcut_of(press, lowered, sidebar_open, n)
            == (Shortcut { action: Some(ShortcutAction::GoForward), consumed: true }),
        press.key == NamedKey::Tab && press.ctrl ==> shortcut_of(press, lowered, sidebar_open, n)
            == (Shortcut {
            action: Some(
                if press.shift {
                    ShortcutAction::PreviousTab
                } else {
                    ShortcutAction::NextTab
                },
            ),
            consumed: true,
        }),
        press.key == NamedKey::IsoLeftTab && press.ctrl ==> shortcut_of(
            press,
            lowered,
            sidebar_open,
            n,
        ) == (Shortcut { action: Some(ShortcutAction::PreviousTab), consumed: true }),
{
}

} // verus!
