use xime::daemon::{
    color_scheme_command, default_db_dir, react, setting_changed, setup_path, DaemonCommand,
    Reaction,
};
use xime::tray::{
    InputMode, RetryDelay, TrayAction, TrayManager, TraySignal, MENU_OBJECT, SNI_OBJECT,
    SNI_WATCHER_INTERFACE, SNI_WATCHER_OBJECT, SNI_WATCHER_SERVICE,
};

#[test]
fn test_sni_watcher_constants() {
    assert_eq!(SNI_WATCHER_SERVICE, "org.kde.StatusNotifierWatcher");
    assert_eq!(SNI_WATCHER_OBJECT, "/StatusNotifierWatcher");
    assert_eq!(SNI_WATCHER_INTERFACE, "org.kde.StatusNotifierWatcher");
}

#[test]
fn test_sni_path_constants() {
    assert_eq!(SNI_OBJECT, "/StatusNotifierItem");
    assert_eq!(MENU_OBJECT, "/MenuBar");
}

#[test]
fn test_input_mode_constants() {
    assert_eq!(InputMode::Chinese as i32, 0);
    assert_eq!(InputMode::English as i32, 1);
}

#[test]
fn test_input_mode_debug() {
    assert_eq!(format!("{:?}", InputMode::Chinese), "Chinese");
    assert_eq!(format!("{:?}", InputMode::English), "English");
}

#[test]
fn test_input_mode_clone() {
    let mode = InputMode::Chinese;
    let cloned = mode;
    assert_eq!(mode, cloned);
}

#[test]
fn test_input_mode_equality() {
    assert_eq!(InputMode::Chinese, InputMode::Chinese);
    assert_eq!(InputMode::English, InputMode::English);
    assert_ne!(InputMode::Chinese, InputMode::English);
}

#[test]
fn retry_waits_double_up_to_the_limit() {
    let mut delay = RetryDelay::new();
    let waits: Vec<u64> = (0..7).map(|_| delay.wait()).collect();
    assert_eq!(waits, vec![1, 2, 4, 8, 15, 15, 15]);
}

#[test]
fn visibility_signals_changes_only() {
    let mut tray = TrayManager::new(InputMode::Chinese, (1, 2, 3));
    assert_eq!(tray.set_visible(false), vec![]);
    assert_eq!(
        tray.set_visible(true),
        vec![TraySignal::Active, TraySignal::NewIcon]
    );
    assert_eq!(tray.set_visible(true), vec![]);
    assert_eq!(tray.set_visible(false), vec![TraySignal::Passive]);
    assert_eq!(TraySignal::Active.status(), Some("Active"));
    assert_eq!(TraySignal::Passive.status(), Some("Passive"));
    assert_eq!(TraySignal::NewIcon.status(), None);
    assert_eq!(TraySignal::NewToolTip.status(), None);
}

#[test]
fn modes_and_colors_are_signalled() {
    let mut tray = TrayManager::new(InputMode::Chinese, (1, 2, 3));
    assert_eq!(
        tray.set_mode(InputMode::English),
        vec![TraySignal::NewIcon, TraySignal::NewToolTip]
    );
    assert_eq!(tray.get_mode(), InputMode::English);
    assert_eq!(tray.set_primary_color((9, 8, 7)), vec![TraySignal::NewIcon]);
    assert_eq!(tray.primary_color, (9, 8, 7));
    assert_eq!(tray.get_mode(), InputMode::English);
    assert!(!tray.visible);
}

#[test]
fn menu_actions_become_commands() {
    assert_eq!(
        react(TrayAction::ToggleMode),
        Reaction::Send(DaemonCommand::ToggleMode)
    );
    assert_eq!(react(TrayAction::Settings), Reaction::LaunchSettings);
    assert_eq!(
        react(TrayAction::Deploy),
        Reaction::Send(DaemonCommand::Deploy)
    );
    assert_eq!(
        react(TrayAction::Exit),
        Reaction::SendAndStop(DaemonCommand::Shutdown)
    );
}

#[test]
fn only_the_dark_scheme_is_dark() {
    assert_eq!(
        color_scheme_command(Some(0)),
        Some(DaemonCommand::DarkMode(false))
    );
    assert_eq!(
        color_scheme_command(Some(1)),
        Some(DaemonCommand::DarkMode(true))
    );
    assert_eq!(
        color_scheme_command(Some(2)),
        Some(DaemonCommand::DarkMode(false))
    );
    assert_eq!(color_scheme_command(None), None);
}

#[test]
fn other_settings_are_ignored() {
    let appearance = "org.freedesktop.appearance";
    assert_eq!(
        setting_changed(appearance, "color-scheme", Some(1)),
        Some(DaemonCommand::DarkMode(true))
    );
    assert_eq!(
        setting_changed(appearance, "color-scheme", Some(2)),
        Some(DaemonCommand::DarkMode(false))
    );
    assert_eq!(setting_changed(appearance, "color-scheme", None), None);
    assert_eq!(setting_changed(appearance, "accent-color", Some(1)), None);
    assert_eq!(setting_changed("org.gnome", "color-scheme", Some(1)), None);
}

#[test]
fn paths_are_below_the_home_directory() {
    assert_eq!(
        setup_path(Some("/home/u")),
        "/home/u/.local/bin/xime-setup"
    );
    assert_eq!(setup_path(None), "//.local/bin/xime-setup");
    for home in ["/home/u", "/home/u/", "/", "", "relative"] {
        let expected = std::path::PathBuf::from(home).join(".config/xime");
        assert_eq!(
            default_db_dir(Some(home)),
            expected.to_string_lossy().into_owned()
        );
    }
    assert_eq!(default_db_dir(None), "/.config/xime");
}
