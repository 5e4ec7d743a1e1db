use zeshicast::activation::{
    activation_route, media_refresh, status_refresh, system_refresh, ActivationRoute, CommandKind,
    Refresh,
};
use zeshicast::navigation::LauncherView;

#[test]
fn launcher_commands_come_first() {
    assert_eq!(
        activation_route(Some(CommandKind::CreateSnippet), true, true, "Script", true),
        ActivationRoute::SnippetEditor
    );
    assert_eq!(
        activation_route(Some(CommandKind::AiChatWithPrompt), false, false, "", false),
        ActivationRoute::AiChatAndAsk
    );
    assert_eq!(
        activation_route(Some(CommandKind::Other), true, false, "", false),
        ActivationRoute::LauncherCommand
    );
}

#[test]
fn then_form_json_script_and_plain_run() {
    assert_eq!(activation_route(None, true, true, "Script", false), ActivationRoute::Form);
    assert_eq!(activation_route(None, false, true, "Script", false), ActivationRoute::JsonCommand);
    assert_eq!(activation_route(None, false, false, "Script", false), ActivationRoute::Script);
    assert_eq!(activation_route(None, false, false, "Apps", true), ActivationRoute::Script);
    assert_eq!(activation_route(None, false, false, "script", false), ActivationRoute::Run);
}

#[test]
fn refreshes_follow_the_open_view() {
    assert_eq!(media_refresh(LauncherView::Media), Some(Refresh::MediaView));
    assert_eq!(media_refresh(LauncherView::Audio), Some(Refresh::AudioDevices));
    assert_eq!(media_refresh(LauncherView::Dashboard), Some(Refresh::DashboardMedia));
    assert_eq!(media_refresh(LauncherView::Root), None);
    assert_eq!(status_refresh(LauncherView::Network), Some(Refresh::NetworkList));
    assert_eq!(status_refresh(LauncherView::Dashboard), Some(Refresh::DashboardStatus));
    assert_eq!(status_refresh(LauncherView::Notifications), Some(Refresh::NotificationList));
    assert_eq!(status_refresh(LauncherView::Media), None);
    assert_eq!(system_refresh(LauncherView::Dashboard), Some(Refresh::DashboardSystem));
    assert_eq!(system_refresh(LauncherView::SystemMonitor), Some(Refresh::SystemMonitor));
    assert_eq!(system_refresh(LauncherView::Network), None);
}
