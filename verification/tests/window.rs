use velo::find::{find_command, FindCommand, FindEvent};
use velo::panels::{display_title, history_row_key, history_row_matches, matches_lowered};
use velo::paths::data_home;
use velo::records::{Bookmark, HistoryEntry};
use velo::service::{bookmark_path, service_url};
use velo::shortcuts::{shortcut_for, shortcut_with_lowered, KeyPress, NamedKey, Shortcut, ShortcutAction};
use velo::sidebar::{Sidebar, SidebarPanel};
use velo::tabs::{cycle_target, may_close_tab};

fn press(key: NamedKey, typed: Option<char>, ctrl: bool, shift: bool, alt: bool) -> KeyPress {
    KeyPress { key, typed, ctrl, shift, alt }
}

fn taken(a: ShortcutAction) -> Shortcut {
    Shortcut { action: Some(a), consumed: true }
}

#[test]
fn sidebar_toggles() {
    let mut s = Sidebar::new();
    assert!(!s.shown);
    assert!(s.toggle(SidebarPanel::History));
    assert!(s.dims_tabs());
    assert!(s.toggle(SidebarPanel::Notes));
    assert_eq!(s.visible, SidebarPanel::Notes);
    assert!(!s.toggle(SidebarPanel::Notes));
    assert!(!s.dims_tabs());
    assert_eq!(s.visible, SidebarPanel::Notes);
    assert!(s.toggle(SidebarPanel::Notes));
    s.close();
    assert!(!s.shown);
    assert_eq!(SidebarPanel::Bookmarks.name(), "bookmarks");
    assert_eq!(SidebarPanel::Downloads.title(), "DOWNLOADS");
    assert!(SidebarPanel::History.reloads_on_open());
    assert!(!SidebarPanel::Notes.reloads_on_open());
}

#[test]
fn tab_cycling_wraps() {
    assert_eq!(cycle_target(3, 2, true), Some(0));
    assert_eq!(cycle_target(3, 0, false), Some(2));
    assert_eq!(cycle_target(3, 1, true), Some(2));
    assert_eq!(cycle_target(1, 0, true), None);
    let there = cycle_target(5, 4, true).unwrap();
    assert_eq!(cycle_target(5, there, false), Some(4));
    assert!(!may_close_tab(1));
    assert!(may_close_tab(2));
}

#[test]
fn named_key_shortcuts() {
    assert_eq!(shortcut_for(press(NamedKey::F5, None, false, false, false), false, 1), taken(ShortcutAction::Reload));
    assert_eq!(shortcut_for(press(NamedKey::F5, None, true, false, false), false, 1), taken(ShortcutAction::ReloadBypassCache));
    assert_eq!(shortcut_for(press(NamedKey::F6, None, false, false, false), false, 1), taken(ShortcutAction::FocusAddressBar));
    assert_eq!(shortcut_for(press(NamedKey::Escape, None, false, false, false), true, 1), taken(ShortcutAction::CloseSidebar));
    assert_eq!(
        shortcut_for(press(NamedKey::Escape, None, false, false, false), false, 1),
        Shortcut { action: Some(ShortcutAction::StopLoading), consumed: false }
    );
    assert_eq!(shortcut_for(press(NamedKey::Left, None, false, false, true), false, 1), taken(ShortcutAction::GoBack));
    assert_eq!(shortcut_for(press(NamedKey::Right, None, false, false, true), false, 1), taken(ShortcutAction::GoForward));
    assert_eq!(shortcut_for(press(NamedKey::Left, None, false, false, false), false, 1), Shortcut { action: None, consumed: false });
    assert_eq!(shortcut_for(press(NamedKey::Tab, Some('\t'), true, false, false), false, 2), taken(ShortcutAction::NextTab));
    assert_eq!(shortcut_for(press(NamedKey::Tab, Some('\t'), true, true, false), false, 2), taken(ShortcutAction::PreviousTab));
    assert_eq!(shortcut_for(press(NamedKey::IsoLeftTab, None, true, true, false), false, 2), taken(ShortcutAction::PreviousTab));
    assert_eq!(shortcut_for(press(NamedKey::Tab, Some('\t'), false, false, false), false, 2), Shortcut { action: None, consumed: false });
}

#[test]
fn letter_shortcuts_ignore_case() {
    let k = |c: char, ctrl: bool, shift: bool| shortcut_for(press(NamedKey::Other, Some(c), ctrl, shift, false), false, 3);
    assert_eq!(k('n', true, false), taken(ShortcutAction::ToggleNotes));
    assert_eq!(k('N', true, false), taken(ShortcutAction::ToggleNotes));
    assert_eq!(k('N', true, true), Shortcut { action: None, consumed: false });
    assert_eq!(k('t', true, false), taken(ShortcutAction::NewTab));
    assert_eq!(k('W', true, true), taken(ShortcutAction::CloseTab));
    assert_eq!(k('l', true, false), taken(ShortcutAction::FocusAddressBar));
    assert_eq!(k('r', true, false), taken(ShortcutAction::Reload));
    assert_eq!(k('R', true, true), taken(ShortcutAction::ReloadBypassCache));
    assert_eq!(k('h', true, false), taken(ShortcutAction::ToggleHistory));
    assert_eq!(k('b', true, false), taken(ShortcutAction::ToggleBookmarks));
    assert_eq!(k('j', true, false), taken(ShortcutAction::ToggleDownloads));
    assert_eq!(k('D', true, true), taken(ShortcutAction::BookmarkPage));
    assert_eq!(k('=', true, false), taken(ShortcutAction::ZoomIn));
    assert_eq!(k('+', true, true), taken(ShortcutAction::ZoomIn));
    assert_eq!(k('-', true, false), taken(ShortcutAction::ZoomOut));
    assert_eq!(k('0', true, false), taken(ShortcutAction::ZoomReset));
    assert_eq!(k('n', false, false), Shortcut { action: None, consumed: false });
    assert_eq!(k('q', true, false), Shortcut { action: None, consumed: false });
}

#[test]
fn digit_shortcuts_select_tabs() {
    let k = |c: char, n: u32| shortcut_for(press(NamedKey::Other, Some(c), true, false, false), false, n);
    assert_eq!(k('1', 3), taken(ShortcutAction::SelectTab(0)));
    assert_eq!(k('3', 3), taken(ShortcutAction::SelectTab(2)));
    assert_eq!(k('4', 3), Shortcut { action: None, consumed: true });
    assert_eq!(k('9', 3), taken(ShortcutAction::SelectTab(2)));
    assert_eq!(k('9', 0), Shortcut { action: None, consumed: true });
    assert_eq!(k('8', 8), taken(ShortcutAction::SelectTab(7)));
}

#[test]
fn shortcuts_on_already_lowered_characters() {
    let p = press(NamedKey::Other, Some('N'), true, false, false);
    assert_eq!(shortcut_with_lowered(p, Some('n'), false, 1), taken(ShortcutAction::ToggleNotes));
    assert_eq!(shortcut_with_lowered(p, Some('N'), false, 1), Shortcut { action: None, consumed: false });
    assert_eq!(shortcut_with_lowered(p, None, false, 1), Shortcut { action: None, consumed: false });
}

#[test]
fn find_bar_commands() {
    assert_eq!(find_command(FindEvent::TextChanged, ""), FindCommand::Finish);
    assert_eq!(find_command(FindEvent::TextChanged, "rust"), FindCommand::Search("rust".to_string()));
    assert_eq!(find_command(FindEvent::Activated, ""), FindCommand::Nothing);
    assert_eq!(find_command(FindEvent::Activated, "rust"), FindCommand::Next);
    assert_eq!(find_command(FindEvent::ShiftReturn, "rust"), FindCommand::Previous);
    assert_eq!(find_command(FindEvent::NextClicked, ""), FindCommand::Next);
    assert_eq!(find_command(FindEvent::PreviousClicked, ""), FindCommand::Previous);
    assert_eq!(find_command(FindEvent::Closed, "rust"), FindCommand::Finish);
}

#[test]
fn history_rows_and_filters() {
    assert_eq!(display_title("https://a.org", ""), "https://a.org");
    assert_eq!(display_title("https://a.org", "A"), "A");
    let key = history_row_key("Rust Book", "HTTPS://Doc.Rust-Lang.org");
    assert_eq!(key, "rust book https://doc.rust-lang.org");
    assert!(history_row_matches("", &key));
    assert!(history_row_matches("BOOK", &key));
    assert!(history_row_matches("k h", &key));
    assert!(!history_row_matches("python", &key));
    assert!(matches_lowered("", ""));
    assert!(matches_lowered("ab", "xab"));
    assert!(!matches_lowered("abc", "ab"));
    assert!(!matches_lowered("AB", "xab"));
}

#[test]
fn data_directories() {
    assert_eq!(data_home(Some("/x/data"), Some("/home/u")), "/x/data");
    assert_eq!(data_home(None, Some("/home/u")), "/home/u/.local/share");
    assert_eq!(data_home(None, Some("/home/u/")), "/home/u/.local/share");
    assert_eq!(data_home(None, None), "/tmp/.local/share");
    assert_eq!(data_home(None, Some("")), ".local/share");
    let joined = std::path::PathBuf::from("/home/u").join(".local/share");
    assert_eq!(data_home(None, Some("/home/u")), joined.to_str().unwrap());
}

#[test]
fn service_addresses_and_records() {
    assert_eq!(service_url("/api/history"), "http://127.0.0.1:7777/api/history");
    assert_eq!(bookmark_path(42), "/api/bookmarks/42");
    assert_eq!(bookmark_path(-7), "/api/bookmarks/-7");
    assert_eq!(bookmark_path(i64::MIN), format!("/api/bookmarks/{}", i64::MIN));
    let e = HistoryEntry::visit("https://a.org".to_string(), "A".to_string());
    assert_eq!(e.id, None);
    assert_eq!(e.visited_at, None);
    assert_eq!(e.url, "https://a.org");
    let b = Bookmark::new_for("u".to_string(), "t".to_string());
    assert_eq!(b, Bookmark { id: None, url: "u".to_string(), title: "t".to_string(), created_at: None });
    assert_eq!(HistoryEntry::default(), HistoryEntry { id: None, url: String::new(), title: String::new(), visited_at: None });
    assert_eq!(Bookmark::default().url, "");
}

#[test]
fn letter_shortcuts_through_the_ascii_table() {
    let upper = press(NamedKey::Other, Some('T'), true, false, false);
    let lower = press(NamedKey::Other, Some('t'), true, false, false);
    assert_eq!(shortcut_for(upper, false, 1), taken(ShortcutAction::NewTab));
    assert_eq!(shortcut_for(upper, false, 1), shortcut_with_lowered(lower, Some('t'), false, 1));
}

#[test]
fn non_ascii_characters_are_looked_up_by_their_first_lowercase_character() {
    let dotted = press(NamedKey::Other, Some('\u{130}'), true, false, false);
    assert_eq!(shortcut_for(dotted, false, 1), shortcut_with_lowered(dotted, Some('i'), false, 1));
    let kelvin = press(NamedKey::Other, Some('\u{212A}'), true, false, false);
    assert_eq!(shortcut_for(kelvin, false, 1), Shortcut { action: None, consumed: false });
}
