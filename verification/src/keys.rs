//! Keyboard dispatch of the launcher window: which command a key press
//! triggers, given the view that is open.
//!
//! The window performs the command; a key for which the result is
//! `KeyCommand::Proceed` is left to the focused widget (typing goes to the
//! search entry).
use vstd::prelude::*;

use crate::navigation::{back_label_text, LauncherView};
use crate::preferences::shortcut_table;
use crate::text::ascii_lower_char;

verus! {

/// A key press, as far as the launcher distinguishes keys.
#[derive(Debug, Clone, Copy, PartialEq, Eq, Structural)]
pub enum Key {
    Escape,
    Return,
    KeypadEnter,
    Up,
    Down,
    Delete,
    /// A key that produces a character (`k`, `E`, `,` ...).
    Char(char),
    Other,
}

/// The lists that the arrow keys move through.
#[derive(Debug, Clone, Copy, PartialEq, Eq, Structural)]
pub enum SelectionList {
    Results,
    ActionPanel,
    Clipboard,
    Extensions,
    SystemMonitor,
    AudioStreams,
    Network,
    Snippets,
}

/// What the window does for a key press.
#[derive(Debug, Clone, Copy, PartialEq, Eq, Structural)]
pub enum KeyCommand {
    /// The key is not handled here.
    Proceed,
    /// Hide or close the launcher.
    Finish,
    /// Copy the value of the selected result.
    CopySelected,
    /// Run the selected result.
    RunSelected,
    OpenActionPanel,
    OpenSnippets,
    OpenDashboard,
    OpenSystemMonitor,
    OpenAiChat,
    OpenMedia,
    OpenAudio,
    OpenNetwork,
    OpenNotifications,
    OpenClipboard,
    OpenExtensions,
    OpenEmoji,
    OpenFontBrowser,
    OpenPreferences,
    /// Move the selection of a list by one row (`true`: down).
    MoveSelection(SelectionList, bool),
    /// Go back one view.
    Back,
    /// Run the selected row of the action panel.
    RunActionPanelRow,
    /// Copy the selected clipboard entry and return to the root view.
    CopyClipboardRow,
    /// Copy the selected snippet and return to the root view.
    CopySnippetRow,
    /// Return to the root view.
    ShowRoot,
    RefreshDashboard,
    RefreshMedia,
    RefreshNotifications,
    /// Clear the whole clipboard history (behind a confirmation).
    ClearClipboardHistory,
    /// Delete the selected clipboard entry (behind a confirmation).
    DeleteClipboardItem,
    DeleteSnippet,
    EditSnippet,
    /// Terminate the selected process (behind a confirmation).
    TerminateProcess,
}

/// The command of a key pressed while the root view (the result list) is open.
pub open spec fn root_key_command(key: Key, ctrl: bool) -> KeyCommand {
    match key {
        Key::Escape => KeyCommand::Finish,
        Key::Return | Key::KeypadEnter => if ctrl {
            KeyCommand::CopySelected
        } else {
            KeyCommand::RunSelected
        },
        Key::Char(c) => if !ctrl {
            KeyCommand::Proceed
        } else if c == 'k' {
            KeyCommand::OpenActionPanel
        } else if c == 's' {
            KeyCommand::OpenSnippets
        } else if c == 'd' {
            KeyCommand::OpenDashboard
        } else if c == 't' {
            KeyCommand::OpenSystemMonitor
        } else if c == 'i' {
            KeyCommand::OpenAiChat
        } else if c == 'm' {
            KeyCommand::OpenMedia
        } else if c == 'o' {
            KeyCommand::OpenAudio
        } else if c == 'n' {
            KeyCommand::OpenNetwork
        } else if c == 'u' {
            KeyCommand::OpenNotifications
        } else if c == 'h' {
            KeyCommand::OpenClipboard
        } else if c == 'b' {
            KeyCommand::OpenExtensions
        } else if c == 'e' {
            KeyCommand::OpenEmoji
        } else if c == 'f' {
            KeyCommand::OpenFontBrowser
        } else if c == ',' {
            KeyCommand::OpenPreferences
        } else {
            KeyCommand::Proceed
        },
        Key::Down => KeyCommand::MoveSelection(SelectionList::Results, true),
        Key::Up => KeyCommand::MoveSelection(SelectionList::Results, false),
        _ => KeyCommand::Proceed,
    }
}

/// The list of `view` that the arrow keys move through, if it has one.
pub open spec fn view_list(view: LauncherView) -> Option<SelectionList> {
    match view {
        LauncherView::Actions => Some(SelectionList::ActionPanel),
        LauncherView::Clipboard => Some(SelectionList::Clipboard),
        LauncherView::Extensions => Some(SelectionList::Extensions),
        LauncherView::SystemMonitor => Some(SelectionList::SystemMonitor),
        LauncherView::Audio => Some(SelectionList::AudioStreams),
        LauncherView::Network => Some(SelectionList::Network),
        LauncherView::Snippets => Some(SelectionList::Snippets),
        _ => None,
    }
}

/// The command of an arrow key (`down` or up) in a view other than the root.
pub open spec fn arrow_command(view: LauncherView, down: bool) -> KeyCommand {
    match view_list(view) {
        Some(list) => KeyCommand::MoveSelection(list, down),
        None => match view {
            LauncherView::Dashboard => KeyCommand::RefreshDashboard,
            LauncherView::Media => KeyCommand::RefreshMedia,
            LauncherView::Notifications => KeyCommand::RefreshNotifications,
            _ => KeyCommand::Proceed,
        },
    }
}

/// The command of Return in a view other than the root; `input_empty` tells
/// whether the AI chat's prompt field is empty.
pub open spec fn return_command(view: LauncherView, input_empty: bool) -> KeyCommand {
    match view {
        LauncherView::Actions => KeyCommand::RunActionPanelRow,
        LauncherView::Clipboard => KeyCommand::CopyClipboardRow,
        LauncherView::Snippets => KeyCommand::CopySnippetRow,
        LauncherView::AiChat => if input_empty {
            KeyCommand::ShowRoot
        } else {
            KeyCommand::Proceed
        },
        LauncherView::Extensions | LauncherView::Dashboard | LauncherView::SystemMonitor
        | LauncherView::Audio | LauncherView::Media | LauncherView::Network
        | LauncherView::Notifications => KeyCommand::ShowRoot,
        _ => KeyCommand::Proceed,
    }
}

/// The command of a key pressed while `view`, not the root, is open.
pub open spec fn view_key_command(
    view: LauncherView,
    key: Key,
    ctrl: bool,
    input_empty: bool,
) -> KeyCommand {
    match key {
        Key::Escape => KeyCommand::Back,
        Key::Return | Key::KeypadEnter => return_command(view, input_empty),
        Key::Down => arrow_command(view, true),
        Key::Up => arrow_command(view, false),
        Key::Delete => match view {
            LauncherView::Clipboard => if ctrl {
                KeyCommand::ClearClipboardHistory
            } else {
                KeyCommand::DeleteClipboardItem
            },
            LauncherView::Snippets => KeyCommand::DeleteSnippet,
            LauncherView::SystemMonitor => KeyCommand::TerminateProcess,
            _ => KeyCommand::Proceed,
        },
        Key::Char(c) => if view == LauncherView::Snippets && ctrl && (c == 'e' || c == 'E') {
            KeyCommand::EditSnippet
        } else {
            KeyCommand::Proceed
        },
        Key::Other => KeyCommand::Proceed,
    }
}

/// The command of a key pressed while `view` is open.
pub open spec fn key_command_spec(
    view: LauncherView,
    key: Key,
    ctrl: bool,
    input_empty: bool,
) -> KeyCommand {
    if view == LauncherView::Root {
        root_key_command(key, ctrl)
    } else {
        view_key_command(view, key, ctrl, input_empty)
    }
}

/// The command of a key pressed in the root view.
pub fn handle_key(key: Key, ctrl: bool) -> (c: KeyCommand)
    ensures
        c == root_key_command(key, ctrl),
{
    match key {
        Key::Escape => KeyCommand::Finish,
        Key::Return | Key::KeypadEnter => {
            if ctrl {
                KeyCommand::CopySelected
            } else {
                KeyCommand::RunSelected
            }
        },
        Key::Char(c) => {
            if !ctrl {
                KeyCommand::Proceed
            } else if c == 'k' {
                KeyCommand::OpenActionPanel
            } else if c == 's' {
                KeyCommand::OpenSnippets
            } else if c == 'd' {
                KeyCommand::OpenDashboard
            } else if c == 't' {
                KeyCommand::OpenSystemMonitor
            } else if c == 'i' {
                KeyCommand::OpenAiChat
            } else if c == 'm' {
                KeyCommand::OpenMedia
            } else if c == 'o' {
                KeyCommand::OpenAudio
            } else if c == 'n' {
                KeyCommand::OpenNetwork
            } else if c == 'u' {
                KeyCommand::OpenNotifications
            } else if c == 'h' {
                KeyCommand::OpenClipboard
            } else if c == 'b' {
                KeyCommand::OpenExtensions
            } else if c == 'e' {
                KeyCommand::OpenEmoji
            } else if c == 'f' {
                KeyCommand::OpenFontBrowser
            } else if c == ',' {
                KeyCommand::OpenPreferences
            } else {
                KeyCommand::Proceed
            }
        },
        Key::Down => KeyCommand::MoveSelection(SelectionList::Results, true),
        Key::Up => KeyCommand::MoveSelection(SelectionList::Results, false),
        _ => KeyCommand::Proceed,
    }
}

/// The list of `view` that the arrow keys move through.
fn list_of_view(view: LauncherView) -> (r: Option<SelectionList>)
    ensures
        r == view_list(view),
{
    match view {
        LauncherView::Actions => Some(SelectionList::ActionPanel),
        LauncherView::Clipboard => Some(SelectionList::Clipboard),
        LauncherView::Extensions => Some(SelectionList::Extensions),
        LauncherView::SystemMonitor => Some(SelectionList::SystemMonitor),
        LauncherView::Audio => Some(SelectionList::AudioStreams),
        LauncherView::Network => Some(SelectionList::Network),
        LauncherView::Snippets => Some(SelectionList::Snippets),
        _ => None,
    }
}

/// The command of a key pressed while `view`, not the root, is open.
pub fn handle_view_key(view: LauncherView, key: Key, ctrl: bool, input_empty: bool) -> (c:
    KeyCommand)
    ensures
        c == view_key_command(view, key, ctrl, input_empty),
{
    match key {
        Key::Escape => KeyCommand::Back,
        Key::Return | Key::KeypadEnter => match view {
            LauncherView::Actions => KeyCommand::RunActionPanelRow,
            LauncherView::Clipboard => KeyCommand::CopyClipboardRow,
            LauncherView::Snippets => KeyCommand::CopySnippetRow,
            LauncherView::AiChat => {
                if input_empty {
                    KeyCommand::ShowRoot
                } else {
                    KeyCommand::Proceed
                }
            },
            LauncherView::Extensions | LauncherView::Dashboard | LauncherView::SystemMonitor
            | LauncherView::Audio | LauncherView::Media | LauncherView::Network
            | LauncherView::Notifications => KeyCommand::ShowRoot,
            _ => KeyCommand::Proceed,
        },
        Key::Down | Key::Up => {
            let down = match key {
                Key::Down => true,
                _ => false,
            };
            match list_of_view(view) {
                Some(list) => KeyCommand::MoveSelection(list, down),
                None => match view {
                    LauncherView::Dashboard => KeyCommand::RefreshDashboard,
                    LauncherView::Media => KeyCommand::RefreshMedia,
                    LauncherView::Notifications => KeyCommand::RefreshNotifications,
                    _ => KeyCommand::Proceed,
                },
            }
        },
        Key::Delete => match view {
            LauncherView::Clipboard => {
                if ctrl {
                    KeyCommand::ClearClipboardHistory
                } else {
                    KeyCommand::DeleteClipboardItem
                }
            },
            LauncherView::Snippets => KeyCommand::DeleteSnippet,
            LauncherView::SystemMonitor => KeyCommand::TerminateProcess,
            _ => KeyCommand::Proceed,
        },
        Key::Char(c) => {
            if view == LauncherView::Snippets && ctrl && (c == 'e' || c == 'E') {
                KeyCommand::EditSnippet
            } else {
                KeyCommand::Proceed
            }
        },
        Key::Other => KeyCommand::Proceed,
    }
}

/// The command of a key pressed while `view` is open: the root view's
/// shortcuts there, the open view's keys elsewhere.
pub fn key_command(view: LauncherView, key: Key, ctrl: bool, input_empty: bool) -> (c: KeyCommand)
    ensures
        c == key_command_spec(view, key, ctrl, input_empty),
{
    if view == LauncherView::Root {
        handle_key(key, ctrl)
    } else {
        handle_view_key(view, key, ctrl, input_empty)
    }
}

/// Typing a character without Control in the root view is never taken from
/// the search entry.
pub proof fn lemma_typing_reaches_entry(c: char, input_empty: bool)
    ensures
        key_command_spec(LauncherView::Root, Key::Char(c), false, input_empty)
            == KeyCommand::Proceed,
{
}

/// Escape always leaves the open view: it goes back from any other view and
/// closes the launcher from the root.
pub proof fn lemma_escape_leaves(view: LauncherView, ctrl: bool, input_empty: bool)
    ensures
        key_command_spec(view, Key::Escape, ctrl, input_empty) == if view == LauncherView::Root {
            KeyCommand::Finish
        } else {
            KeyCommand::Back
        },
{
}

/// Up and Down act on the same list in opposite directions, in every view.
pub proof fn lemma_arrows_are_opposite(view: LauncherView, ctrl: bool, input_empty: bool)
    ensures
        key_command_spec(view, Key::Down, ctrl, input_empty) matches KeyCommand::MoveSelection(
            l,
            d,
        ) ==> d && key_command_spec(view, Key::Up, ctrl, input_empty)
            == KeyCommand::MoveSelection(l, false),
        key_command_spec(view, Key::Up, ctrl, input_empty) matches KeyCommand::MoveSelection(
            l,
            d,
        ) ==> !d && key_command_spec(view, Key::Down, ctrl, input_empty)
            == KeyCommand::MoveSelection(l, true),
{
}

/// The Control shortcuts that open views act only from the root view; in
/// another view a Control character does nothing but edit a snippet.
pub proof fn lemma_shortcuts_only_at_root(view: LauncherView, c: char, input_empty: bool)
    requires
        view != LauncherView::Root,
    ensures
        key_command_spec(view, Key::Char(c), true, input_empty) == KeyCommand::Proceed
            || key_command_spec(view, Key::Char(c), true, input_empty) == KeyCommand::EditSnippet,
{
}

/// Destructive commands come only from Delete, and only in the clipboard,
/// snippet and process views.
pub proof fn lemma_destructive_needs_delete(
    view: LauncherView,
    key: Key,
    ctrl: bool,
    input_empty: bool,
)
    ensures
        ({
            let c = key_command_spec(view, key, ctrl, input_empty);
            (c == KeyCommand::ClearClipboardHistory || c == KeyCommand::DeleteClipboardItem || c
                == KeyCommand::DeleteSnippet || c == KeyCommand::TerminateProcess) ==> key
                == Key::Delete && (view == LauncherView::Clipboard || view == LauncherView::Snippets
                || view == LauncherView::SystemMonitor)
        }),
{
}

/// The view that a command opens, if it opens one.
pub open spec fn opened_view(cmd: KeyCommand) -> Option<LauncherView> {
    match cmd {
        KeyCommand::OpenActionPanel => Some(LauncherView::Actions),
        KeyCommand::OpenSnippets => Some(LauncherView::Snippets),
        KeyCommand::OpenDashboard => Some(LauncherView::Dashboard),
        KeyCommand::OpenSystemMonitor => Some(LauncherView::SystemMonitor),
        KeyCommand::OpenAiChat => Some(LauncherView::AiChat),
        KeyCommand::OpenMedia => Some(LauncherView::Media),
        KeyCommand::OpenAudio => Some(LauncherView::Audio),
        KeyCommand::OpenNetwork => Some(LauncherView::Network),
        KeyCommand::OpenNotifications => Some(LauncherView::Notifications),
        KeyCommand::OpenClipboard => Some(LauncherView::Clipboard),
        KeyCommand::OpenExtensions => Some(LauncherView::Extensions),
        KeyCommand::OpenEmoji => Some(LauncherView::Emoji),
        KeyCommand::OpenPreferences => Some(LauncherView::Preferences),
        _ => None,
    }
}

/// Every Ctrl shortcut that the Keyboard section of the preferences lists
/// does what it says there in the root view: Ctrl+K opens the action panel,
/// and each other one opens the view whose title the list gives for it.
pub proof fn lemma_listed_shortcuts_open_their_views()
    ensures
        forall|i: int|
            0 <= i < shortcut_table().len() && (#[trigger] shortcut_table()[i]).0.len() == 6
                && shortcut_table()[i].0.take(5) == "Ctrl+"@ ==> ({
                let cmd = root_key_command(
                    Key::Char(ascii_lower_char(shortcut_table()[i].0[5])),
                    true,
                );
                if shortcut_table()[i].1 == "Open Action Panel"@ {
                    cmd == KeyCommand::OpenActionPanel
                } else {
                    opened_view(cmd) matches Some(v) && back_label_text(v)
                        == shortcut_table()[i].1
                }
            }),
{
    reveal_strlit("Super+Space");
    reveal_strlit("Escape");
    reveal_strlit("\u{2191} / \u{2193}");
    reveal_strlit("Enter");
    reveal_strlit("Tab");
    reveal_strlit("Ctrl+");
    reveal_strlit("Ctrl+K");
    reveal_strlit("Ctrl+D");
    reveal_strlit("Ctrl+T");
    reveal_strlit("Ctrl+I");
    reveal_strlit("Ctrl+M");
    reveal_strlit("Ctrl+O");
    reveal_strlit("Ctrl+N");
    reveal_strlit("Ctrl+H");
    reveal_strlit("Ctrl+B");
    reveal_strlit("Ctrl+,");
    reveal_strlit("=");
    reveal_strlit("Open Action Panel");
    reveal_strlit("Dashboard");
    reveal_strlit("System Monitor");
    reveal_strlit("AI Chat");
    reveal_strlit("Media");
    reveal_strlit("Audio");
    reveal_strlit("Network");
    reveal_strlit("Clipboard");
    reveal_strlit("Extensions");
    reveal_strlit("Preferences");
    let t = shortcut_table();
    assert forall|i: int|
        0 <= i < t.len() && (#[trigger] t[i]).0.len() == 6 && t[i].0.take(5) == "Ctrl+"@ implies ({
        let cmd = root_key_command(Key::Char(ascii_lower_char(t[i].0[5])), true);
        if t[i].1 == "Open Action Panel"@ {
            cmd == KeyCommand::OpenActionPanel
        } else {
            opened_view(cmd) matches Some(v) && back_label_text(v) == t[i].1
        }
    }) by {
        assert(0 <= i < 16);
        if i < 5 {
            assert(t[i].0.len() != 6 || t[i].0[0] != 'C' || t[i].0[1] != 't' || t[i].0[4] != '+') by {
                if i == 0 {
                    assert(t[i].0 == "Super+Space"@);
                } else if i == 1 {
                    assert(t[i].0 == "Escape"@);
                } else if i == 2 {
                    assert(t[i].0 == "\u{2191} / \u{2193}"@);
                } else if i == 3 {
                    assert(t[i].0 == "Enter"@);
                } else {
                    assert(t[i].0 == "Tab"@);
                }
            }
            assert(t[i].0.take(5)[0] == t[i].0[0] && t[i].0.take(5)[1] == t[i].0[1]
                && t[i].0.take(5)[4] == t[i].0[4]);
        } else if i == 15 {
            assert(t[i].0 == "="@);
        } else {
            assert(i == 5 || t[i].1.len() != 17);
        }
    }
}

/// Each Ctrl shortcut of the root view does its own thing: two different
/// keys that both do something under Ctrl never do the same thing.
pub proof fn lemma_root_shortcuts_distinct(c1: char, c2: char)
    requires
        c1 != c2,
        root_key_command(Key::Char(c1), true) != KeyCommand::Proceed,
    ensures
        root_key_command(Key::Char(c1), true) != root_key_command(Key::Char(c2), true),
{
}

} // verus!
