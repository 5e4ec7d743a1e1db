//! What activating a row of the result list does, and what the launcher's
//! periodic refreshes redraw for the view that is open.
use vstd::prelude::*;

use crate::navigation::LauncherView;
use crate::text::{chars_of, seq_eq};

verus! {

/// The launcher command an action carries, as far as activation tells them
/// apart.
#[derive(Debug, Clone, Copy, PartialEq, Eq, Structural)]
pub enum CommandKind {
    /// Open the snippet editor on the given content.
    CreateSnippet,
    /// Open the AI chat on the given prompt.
    AiChatWithPrompt,
    /// Any other launcher command.
    Other,
}

/// Where an activated result row goes.
#[derive(Debug, Clone, Copy, PartialEq, Eq, Structural)]
pub enum ActivationRoute {
    /// The snippet editor panel.
    SnippetEditor,
    /// The launcher command, then the AI is asked from the chat view.
    AiChatAndAsk,
    /// The launcher command.
    LauncherCommand,
    /// The argument form of the action.
    Form,
    /// The JSON command, confirmed first where it asks for it.
    JsonCommand,
    /// The script run.
    Script,
    /// The action itself, confirmed first where it asks for it.
    Run,
}

/// Where activating an action goes: its launcher command when it has one,
/// else its form, else its JSON command, else a script run for a script
/// (by category or by mode), else the action itself.
pub open spec fn activation_route_spec(
    command: Option<CommandKind>,
    has_form: bool,
    has_json_command: bool,
    category: Seq<char>,
    has_script_mode: bool,
) -> ActivationRoute {
    match command {
        Some(CommandKind::CreateSnippet) => ActivationRoute::SnippetEditor,
        Some(CommandKind::AiChatWithPrompt) => ActivationRoute::AiChatAndAsk,
        Some(CommandKind::Other) => ActivationRoute::LauncherCommand,
        None => if has_form {
            ActivationRoute::Form
        } else if has_json_command {
            ActivationRoute::JsonCommand
        } else if category == "Script"@ || has_script_mode {
            ActivationRoute::Script
        } else {
            ActivationRoute::Run
        },
    }
}

/// Where activating a result row with these properties goes.
pub fn activation_route(
    command: Option<CommandKind>,
    has_form: bool,
    has_json_command: bool,
    category: &str,
    has_script_mode: bool,
) -> (r: ActivationRoute)
    ensures
        r == activation_route_spec(
            command,
            has_form,
            has_json_command,
            category@,
            has_script_mode,
        ),
{
    match command {
        Some(CommandKind::CreateSnippet) => ActivationRoute::SnippetEditor,
        Some(CommandKind::AiChatWithPrompt) => ActivationRoute::AiChatAndAsk,
        Some(CommandKind::Other) => ActivationRoute::LauncherCommand,
        None => {
            if has_form {
                ActivationRoute::Form
            } else if has_json_command {
                ActivationRoute::JsonCommand
            } else if seq_eq(&chars_of(category), &chars_of("Script")) || has_script_mode {
                ActivationRoute::Script
            } else {
                ActivationRoute::Run
            }
        },
    }
}

/// What a periodic refresh redraws.
#[derive(Debug, Clone, Copy, PartialEq, Eq, Structural)]
pub enum Refresh {
    /// The media view from the player.
    MediaView,
    /// The audio device list, when it changed.
    AudioDevices,
    /// The dashboard's media card.
    DashboardMedia,
    /// The network list, when it changed.
    NetworkList,
    /// The dashboard's network, battery, audio and notification cards.
    DashboardStatus,
    /// The notification list, when it changed.
    NotificationList,
    /// The dashboard's system figures and temperature.
    DashboardSystem,
    /// The system monitor's figures and top processes.
    SystemMonitor,
}

/// What the once-a-second media refresh redraws in `view`.
pub open spec fn media_refresh_spec(view: LauncherView) -> Option<Refresh> {
    match view {
        LauncherView::Media => Some(Refresh::MediaView),
        LauncherView::Audio => Some(Refresh::AudioDevices),
        LauncherView::Dashboard => Some(Refresh::DashboardMedia),
        _ => None,
    }
}

/// What the once-a-second status refresh redraws in `view`.
pub open spec fn status_refresh_spec(view: LauncherView) -> Option<Refresh> {
    match view {
        LauncherView::Network => Some(Refresh::NetworkList),
        LauncherView::Dashboard => Some(Refresh::DashboardStatus),
        LauncherView::Notifications => Some(Refresh::NotificationList),
        _ => None,
    }
}

/// What the system refresh, at the dashboard's poll interval, redraws in
/// `view`.
pub open spec fn system_refresh_spec(view: LauncherView) -> Option<Refresh> {
    match view {
        LauncherView::Dashboard => Some(Refresh::DashboardSystem),
        LauncherView::SystemMonitor => Some(Refresh::SystemMonitor),
        _ => None,
    }
}

/// What the once-a-second media refresh redraws in `view`.
pub fn media_refresh(view: LauncherView) -> (r: Option<Refresh>)
    ensures
        r == media_refresh_spec(view),
{
    match view {
        LauncherView::Media => Some(Refresh::MediaView),
        LauncherView::Audio => Some(Refresh::AudioDevices),
        LauncherView::Dashboard => Some(Refresh::DashboardMedia),
        _ => None,
    }
}

/// What the once-a-second status refresh redraws in `view`.
pub fn status_refresh(view: LauncherView) -> (r: Option<Refresh>)
    ensures
        r == status_refresh_spec(view),
{
    match view {
        LauncherView::Network => Some(Refresh::NetworkList),
        LauncherView::Dashboard => Some(Refresh::DashboardStatus),
        LauncherView::Notifications => Some(Refresh::NotificationList),
        _ => None,
    }
}

/// What the system refresh redraws in `view`.
pub fn system_refresh(view: LauncherView) -> (r: Option<Refresh>)
    ensures
        r == system_refresh_spec(view),
{
    match view {
        LauncherView::Dashboard => Some(Refresh::DashboardSystem),
        LauncherView::SystemMonitor => Some(Refresh::SystemMonitor),
        _ => None,
    }
}

} // verus!
