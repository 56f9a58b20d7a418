use std::path::PathBuf;
use nemax::autostart::{
    autostart_command, autostart_dir, desktop_file_path, executable_mode, generate_desktop_file,
    join_path,
};
use nemax::single_instance::{
    activation_commands, ensure_single_instance, is_first_instance, socket_step, to_wide,
    SocketEvent, SocketStep, WindowCommand,
};
use nemax::tray::show_hide_label;
use nemax::ui::{
    about_script, settings_init_script, starts_hidden, ua_update_script, ui_step, MenuChoice,
    SettingsCmd, TrayChoice, UiAction, UiEvent, UiState, WindowPrefs, WindowRole,
};

fn closed() -> UiState {
    UiState { settings_open: false, donate_open: false, main_visible: false }
}

fn ui_step_q(s: UiState, e: &UiEvent) -> (UiState, UiAction) {
    ui_step(s, quit_on_close(), e)
}

fn quit_on_close() -> WindowPrefs {
    WindowPrefs { close_to_tray: false, start_hidden: false }
}

fn msg(s: &str) -> UiEvent {
    UiEvent::Message(s.to_string())
}

#[test]
fn settings_commands_parse() {
    assert_eq!(SettingsCmd::parse("settings:new_ua"), Some(SettingsCmd::NewUA));
    assert_eq!(SettingsCmd::parse("settings:devtools"), Some(SettingsCmd::OpenDevTools));
    assert_eq!(SettingsCmd::parse("settings:close"), Some(SettingsCmd::Close));
    assert_eq!(SettingsCmd::parse("settings:set_sw:true"), Some(SettingsCmd::SetSW(true)));
    assert_eq!(SettingsCmd::parse("settings:set_sw:false"), Some(SettingsCmd::SetSW(false)));
    assert_eq!(SettingsCmd::parse("settings:set_sw:yes"), Some(SettingsCmd::SetSW(false)));
    assert_eq!(
        SettingsCmd::parse("settings:set_sw:settings:set_sw:true"),
        Some(SettingsCmd::SetSW(true))
    );
    assert_eq!(SettingsCmd::parse("settings:unknown"), None);
    assert_eq!(SettingsCmd::parse("filter:ready"), None);
    assert_eq!(SettingsCmd::parse(""), None);
}

#[test]
fn menu_opens_each_window_once() {
    let (s1, a1) = ui_step_q(closed(), &UiEvent::Menu(MenuChoice::Settings));
    assert!(matches!(a1, UiAction::OpenSettingsWindow));
    assert!(s1.settings_open);
    let (s2, a2) = ui_step_q(s1, &UiEvent::Menu(MenuChoice::Settings));
    assert!(matches!(a2, UiAction::FocusSettingsWindow));
    assert_eq!(s2, s1);
    let (s3, a3) = ui_step_q(s2, &UiEvent::Menu(MenuChoice::Donate));
    assert!(matches!(a3, UiAction::OpenDonateWindow));
    assert!(s3.donate_open && s3.settings_open);
    let (_, a4) = ui_step_q(s3, &UiEvent::Menu(MenuChoice::Donate));
    assert!(matches!(a4, UiAction::FocusDonateWindow));
    let (_, a5) = ui_step_q(s3, &UiEvent::Menu(MenuChoice::About));
    assert!(matches!(a5, UiAction::ShowAbout));
}

#[test]
fn closing_windows() {
    let open = UiState { settings_open: true, donate_open: true, main_visible: true };
    let (s, a) = ui_step_q(open, &UiEvent::CloseRequested(WindowRole::Main));
    assert!(matches!(a, UiAction::Exit));
    assert_eq!(s, open);
    let (s, a) = ui_step_q(open, &UiEvent::CloseRequested(WindowRole::Settings));
    assert!(matches!(a, UiAction::CloseSettingsWindow));
    assert_eq!(s, UiState { settings_open: false, donate_open: true, main_visible: true });
    let (s, a) = ui_step_q(open, &UiEvent::CloseRequested(WindowRole::Donate));
    assert!(matches!(a, UiAction::CloseDonateWindow));
    assert_eq!(s, UiState { settings_open: true, donate_open: false, main_visible: true });
    let (s, a) = ui_step_q(open, &UiEvent::CloseRequested(WindowRole::Other));
    assert!(matches!(a, UiAction::Nothing));
    assert_eq!(s, open);
}

#[test]
fn page_messages() {
    let open = UiState { settings_open: true, donate_open: false, main_visible: true };
    let (_, a) = ui_step_q(open, &msg("settings:new_ua"));
    assert!(matches!(a, UiAction::RegenerateUserAgent { notify_settings: true }));
    let (_, a) = ui_step_q(closed(), &msg("settings:new_ua"));
    assert!(matches!(a, UiAction::RegenerateUserAgent { notify_settings: false }));
    let (_, a) = ui_step_q(open, &msg("settings:set_sw:true"));
    assert!(matches!(a, UiAction::SetServiceWorkers(true)));
    let (_, a) = ui_step_q(open, &msg("settings:devtools"));
    assert!(matches!(a, UiAction::OpenDevTools));
    let (s, a) = ui_step_q(open, &msg("settings:close"));
    assert!(matches!(a, UiAction::CloseSettingsWindow));
    assert!(!s.settings_open);
    let (_, a) = ui_step_q(open, &msg("settings:bogus"));
    assert!(matches!(a, UiAction::Nothing));
    let (s, a) = ui_step_q(closed(), &msg("filter:ready"));
    assert!(matches!(a, UiAction::ShowMainWindow));
    assert!(s.main_visible);
    match ui_step_q(closed(), &msg("filter:blocked https://x/ads")).1 {
        UiAction::LogFilter { text, blocked } => {
            assert_eq!(text, "blocked https://x/ads");
            assert!(blocked);
        }
        other => panic!("{:?}", other),
    }
    match ui_step_q(closed(), &msg("filter:loaded")).1 {
        UiAction::LogFilter { text, blocked } => {
            assert_eq!(text, "loaded");
            assert!(!blocked);
        }
        other => panic!("{:?}", other),
    }
    let (_, a) = ui_step_q(closed(), &msg("hello"));
    assert!(matches!(a, UiAction::Nothing));
    let (_, a) = ui_step_q(closed(), &UiEvent::Other);
    assert!(matches!(a, UiAction::Nothing));
}

#[test]
fn scripts() {
    assert_eq!(ua_update_script("a\"b"), "if(window.__updateUA) window.__updateUA(\"a\\\"b\");");
    let s = settings_init_script("{\"a\":1}");
    assert!(s.starts_with("\n                        window.__SETTINGS_JSON__ = {\"a\":1};\n"));
    assert!(s.contains("setTimeout(function() { clearInterval(__settingsInterval); }, 3000);"));
    let a = about_script("1.2.3");
    assert!(a.starts_with("alert('neMAX v1.2.3\\n\\n"));
    assert!(a.ends_with("© 2026 neMAX');"));
}

#[test]
fn autostart_texts() {
    assert_eq!(autostart_command("C:\\x\\nemax.exe"), "\"C:\\x\\nemax.exe\" --minimized");
    assert_eq!(
        generate_desktop_file("/opt/nemax"),
        "[Desktop Entry]\nType=Application\nName=neMAX\nComment=Lightweight max.ru client\nExec=\"/opt/nemax\" --minimized\nIcon=nemax\nTerminal=false\nCategories=Network;\nStartupNotify=false\n"
    );
    assert_eq!(executable_mode(0o644), 0o755);
    assert_eq!(executable_mode(0o100600), 0o100755);
}

#[test]
fn autostart_paths_follow_path_join() {
    for (base, comp) in [("/home/u", ".config"), ("/home/u/", "x"), ("", "autostart"), ("a", "/abs")] {
        assert_eq!(join_path(base, comp), PathBuf::from(base).join(comp).to_string_lossy());
    }
    assert_eq!(autostart_dir(Some("/cfg"), Some("/home/u")).unwrap(), "/cfg/autostart");
    assert_eq!(autostart_dir(None, Some("/home/u")).unwrap(), "/home/u/.config/autostart");
    assert_eq!(autostart_dir(None, None), None);
    assert_eq!(
        desktop_file_path(None, Some("/home/u")).unwrap(),
        "/home/u/.config/autostart/nemax.desktop"
    );
}

#[test]
fn single_instance_decisions() {
    assert_eq!(to_wide("neMAX"), vec![110, 101, 77, 65, 88, 0]);
    let s = "aé€😀";
    let mut expect: Vec<u16> = s.encode_utf16().collect();
    expect.push(0);
    assert_eq!(to_wide(s), expect);
    assert!(is_first_instance(false, true));
    assert!(is_first_instance(true, false));
    assert!(!is_first_instance(true, true));
    assert_eq!(activation_commands(false, true), vec![]);
    assert_eq!(
        activation_commands(true, true),
        vec![WindowCommand::Restore, WindowCommand::ShowMaximized, WindowCommand::SetForeground]
    );
    assert_eq!(
        activation_commands(true, false),
        vec![WindowCommand::ShowMaximized, WindowCommand::SetForeground]
    );
    assert!(ensure_single_instance());
}

#[test]
fn tray_labels() {
    assert_eq!(show_hide_label(true), "Скрыть");
    assert_eq!(show_hide_label(false), "Показать");
}

#[test]
fn closing_main_window_hides_to_tray_when_set() {
    let shown = UiState { settings_open: true, donate_open: false, main_visible: true };
    let to_tray = WindowPrefs { close_to_tray: true, start_hidden: false };
    let (s, a) = ui_step(shown, to_tray, &UiEvent::CloseRequested(WindowRole::Main));
    assert!(matches!(a, UiAction::HideMainWindow));
    assert_eq!(s, UiState { settings_open: true, donate_open: false, main_visible: false });
    let (s, a) = ui_step(shown, quit_on_close(), &UiEvent::CloseRequested(WindowRole::Main));
    assert!(matches!(a, UiAction::Exit));
    assert_eq!(s, shown);
}

#[test]
fn start_hidden_keeps_window_in_tray() {
    let hidden = WindowPrefs { close_to_tray: true, start_hidden: true };
    let (s, a) = ui_step(closed(), hidden, &msg("filter:ready"));
    assert!(matches!(a, UiAction::Nothing));
    assert!(!s.main_visible);
    assert!(starts_hidden(true, &[]));
    assert!(starts_hidden(false, &["nemax".to_string(), "--minimized".to_string()]));
    assert!(!starts_hidden(false, &["nemax".to_string(), "--other".to_string()]));
}

#[test]
fn tray_toggles_main_window() {
    let prefs = WindowPrefs { close_to_tray: true, start_hidden: false };
    let (s1, a1) = ui_step(closed(), prefs, &msg("tray:toggle"));
    assert!(matches!(a1, UiAction::ShowMainWindow));
    assert!(s1.main_visible);
    let (s2, a2) = ui_step(s1, prefs, &UiEvent::Tray(TrayChoice::ShowHide));
    assert!(matches!(a2, UiAction::HideMainWindow));
    assert_eq!(s2, closed());
    let (s3, a3) = ui_step(s2, prefs, &UiEvent::Tray(TrayChoice::Exit));
    assert!(matches!(a3, UiAction::Exit));
    assert_eq!(s3, s2);
}

#[test]
fn socket_check_steps() {
    assert_eq!(socket_step(SocketEvent::Connected(true)), SocketStep::SignalRunningAndStop);
    assert_eq!(socket_step(SocketEvent::Connected(false)), SocketStep::RemoveStaleAndBind);
    assert_eq!(socket_step(SocketEvent::Bound(true)), SocketStep::ListenAsFirst);
    assert_eq!(socket_step(SocketEvent::Bound(false)), SocketStep::SignalRunningAndStop);
}
