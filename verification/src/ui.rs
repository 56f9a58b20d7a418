//! Decisions of the window event loop: the commands of the settings page,
//! the reaction to each event, and the scripts handed to the web views.

use vstd::prelude::*;
use vstd::string::StrSliceExecFns;
use vstd::string::StringExecFns;
use crate::text::{
    is_prefix, occurs_at, occurs_in, strip_prefix_repeatedly, str_equal, starts_with, contains,
    strip_prefix_repeatedly_str,
};
use crate::json::{
    json_quote, json_escape, to_json_string, read_string_body, lemma_json_string_reads_back,
};
use crate::tray::TRAY_TOGGLE_MESSAGE;

verus! {

broadcast use vstd::string::group_string_axioms;

/// Start of the script that hands the settings to the settings page.
pub const SETTINGS_SCRIPT_HEAD: &'static str = "\n                        window.__SETTINGS_JSON__ = ";

/// End of the script that hands the settings to the settings page.
pub const SETTINGS_SCRIPT_TAIL: &'static str = ";\n                        var __settingsInterval = setInterval(function() {\n                            if (typeof window.__applySettings === 'function') {\n                                window.__applySettings(window.__SETTINGS_JSON__);\n                                clearInterval(__settingsInterval);\n                            }\n                        }, 50);\n\n                        // Подстраховка: перестаем пытаться через 3 секунды, чтобы не крутить цикл вечно\n                        setTimeout(function() { clearInterval(__settingsInterval); }, 3000);\n                        ";

/// Start of the script that shows the about box.
pub const ABOUT_SCRIPT_HEAD: &'static str = "alert('neMAX v";

/// End of the script that shows the about box.
pub const ABOUT_SCRIPT_TAIL: &'static str = "\\n\\nЛёгкий и безопасный клиент для max.ru\\n\\nДанное ПО является независимой разработкой и не связано с ООО «ВК» (ИНН 7743001840), ООО «Коммуникационная платформа» (ИНН 9714058267), ООО «МАХ» (ИНН 9714058267), ООО «Мэйл.ру Цифровые Технологии» (ИНН 7714415613) и структурами VK (Mail.ru Group).\\n\\nДанные передаются на сервер в исходном виде. Разработчик не дополняет и не модифицирует запросы (за исключением блокировки исходящей аналитики/статистики).\\n\\nУсловия использования (EULA):\\n- tos.nemax-mod.ru\\n- https://telegra.ph/LICENZIONNOE-SOGLASHENIE-KONECHNOGO-POLZOVATELYA-EULA-12-10\\n\\n© 2026 neMAX');";

/// A command sent by the settings page.
#[derive(Debug, Clone, Copy, PartialEq, Eq, Structural)]
pub enum SettingsCmd {
    /// Generate a new user agent.
    NewUA,
    /// Turn service workers on or off.
    SetSW(bool),
    /// Open the developer tools.
    OpenDevTools,
    /// Close the settings window.
    Close,
}

/// The command that a settings-page message stands for, if any.
pub open spec fn parse_settings_cmd(msg: Seq<char>) -> Option<SettingsCmd> {
    if msg == "settings:new_ua"@ {
        Some(SettingsCmd::NewUA)
    } else if msg == "settings:devtools"@ {
        Some(SettingsCmd::OpenDevTools)
    } else if msg == "settings:close"@ {
        Some(SettingsCmd::Close)
    } else if is_prefix("settings:set_sw:"@, msg) {
        Some(
            SettingsCmd::SetSW(
                strip_prefix_repeatedly(msg, "settings:set_sw:"@) == "true"@,
            ),
        )
    } else {
        None
    }
}

impl SettingsCmd {
    /// Reads a message of the settings page.
    pub fn parse(msg: &str) -> (r: Option<SettingsCmd>)
        ensures
            r == parse_settings_cmd(msg@),
    {
        if str_equal(msg, "settings:new_ua") {
            Some(SettingsCmd::NewUA)
        } else if str_equal(msg, "settings:devtools") {
            Some(SettingsCmd::OpenDevTools)
        } else if str_equal(msg, "settings:close") {
            Some(SettingsCmd::Close)
        } else if starts_with(msg, "settings:set_sw:") {
            let val = str_equal(strip_prefix_repeatedly_str(msg, "settings:set_sw:"), "true");
            Some(SettingsCmd::SetSW(val))
        } else {
            None
        }
    }
}

/// The script that hands the settings, as JSON, to the settings page once
/// the page is ready for them.
pub open spec fn settings_script_text(settings_json: Seq<char>) -> Seq<char> {
    SETTINGS_SCRIPT_HEAD@ + settings_json + SETTINGS_SCRIPT_TAIL@
}

/// The script that shows the about box of a version.
pub open spec fn about_script_text(version: Seq<char>) -> Seq<char> {
    ABOUT_SCRIPT_HEAD@ + version + ABOUT_SCRIPT_TAIL@
}

/// The script that tells the settings page about a new user agent.
pub open spec fn ua_update_script_text(ua: Seq<char>) -> Seq<char> {
    "if(window.__updateUA) window.__updateUA("@ + json_quote(ua) + ");"@
}

/// The script that hands `settings_json` to the settings page.
pub fn settings_init_script(settings_json: &str) -> (r: String)
    ensures
        r@ == settings_script_text(settings_json@),
{
    let mut r = String::from_str(SETTINGS_SCRIPT_HEAD);
    r.append(settings_json);
    r.append(SETTINGS_SCRIPT_TAIL);
    r
}

/// The script that shows the about box of `version`.
pub fn about_script(version: &str) -> (r: String)
    ensures
        r@ == about_script_text(version@),
{
    let mut r = String::from_str(ABOUT_SCRIPT_HEAD);
    r.append(version);
    r.append(ABOUT_SCRIPT_TAIL);
    r
}

/// The script that tells the settings page about the user agent `ua`.
pub fn ua_update_script(ua: &str) -> (r: String)
    ensures
        r@ == ua_update_script_text(ua@),
{
    let quoted = match to_json_string(ua) {
        Ok(t) => t,
        Err(_) => String::from_str("\"\""),
    };
    let mut r = String::from_str("if(window.__updateUA) window.__updateUA(");
    r.append(quoted.as_str());
    r.append(");");
    r
}

/// An item of the application menu.
#[derive(Debug, Clone, Copy, PartialEq, Eq, Structural)]
pub enum MenuChoice {
    /// Open the settings window.
    Settings,
    /// Open the donation page.
    Donate,
    /// Show the about box.
    About,
}

/// An item of the tray icon's menu.
#[derive(Debug, Clone, Copy, PartialEq, Eq, Structural)]
pub enum TrayChoice {
    /// Show the main window when hidden, hide it when shown.
    ShowHide,
    /// Quit.
    Exit,
}

/// Which of the client's windows an event is about.
#[derive(Debug, Clone, Copy, PartialEq, Eq, Structural)]
pub enum WindowRole {
    /// The main window with the messenger.
    Main,
    /// The open settings window.
    Settings,
    /// The open donation window.
    Donate,
    /// Any other window.
    Other,
}

/// An event of the window event loop.
#[derive(Debug, Clone)]
pub enum UiEvent {
    /// An item of the application menu was chosen.
    Menu(MenuChoice),
    /// An item of the tray icon's menu was chosen.
    Tray(TrayChoice),
    /// A web page, the tray icon or a second start sent a message.
    Message(String),
    /// The user asked to close a window.
    CloseRequested(WindowRole),
    /// Anything else.
    Other,
}

/// Which windows are open and whether the main window is shown.
#[derive(Debug, Clone, Copy, PartialEq, Eq, Structural)]
pub struct UiState {
    /// Whether the settings window is open.
    pub settings_open: bool,
    /// Whether the donation window is open.
    pub donate_open: bool,
    /// Whether the main window is shown.
    pub main_visible: bool,
}

/// The settings that steer the main window.
#[derive(Debug, Clone, Copy, PartialEq, Eq, Structural)]
pub struct WindowPrefs {
    /// Closing the main window hides it to the tray instead of quitting.
    pub close_to_tray: bool,
    /// The main window stays hidden, in the tray, once its content is ready.
    pub start_hidden: bool,
}

/// What the event loop has to do in answer to an event.
#[derive(Debug, Clone)]
pub enum UiAction {
    /// Nothing.
    Nothing,
    /// Create the settings window.
    OpenSettingsWindow,
    /// Bring the settings window to the front.
    FocusSettingsWindow,
    /// Create the donation window.
    OpenDonateWindow,
    /// Bring the donation window to the front.
    FocusDonateWindow,
    /// Show the about box in the main web view.
    ShowAbout,
    /// Generate and store a new user agent; tell the settings page about it
    /// when `notify_settings` holds.
    RegenerateUserAgent { notify_settings: bool },
    /// Store the service-worker switch.
    SetServiceWorkers(bool),
    /// Open the developer tools.
    OpenDevTools,
    /// Drop the settings window.
    CloseSettingsWindow,
    /// Drop the donation window.
    CloseDonateWindow,
    /// Show and focus the main window.
    ShowMainWindow,
    /// Hide the main window to the tray.
    HideMainWindow,
    /// Log a message of the request filter, as a warning when `blocked`.
    LogFilter { text: String, blocked: bool },
    /// Leave the event loop.
    Exit,
}

/// The state with the settings window marked open or closed.
pub open spec fn with_settings(s: UiState, open: bool) -> UiState {
    UiState { settings_open: open, ..s }
}

/// The state with the donation window marked open or closed.
pub open spec fn with_donate(s: UiState, open: bool) -> UiState {
    UiState { donate_open: open, ..s }
}

/// The state with the main window marked shown or hidden.
pub open spec fn with_main(s: UiState, visible: bool) -> UiState {
    UiState { main_visible: visible, ..s }
}

/// Showing the main window when hidden, hiding it when shown.
pub open spec fn toggle_step(s: UiState, t: UiState, a: UiAction) -> bool {
    if s.main_visible {
        t == with_main(s, false) && a == UiAction::HideMainWindow
    } else {
        t == with_main(s, true) && a == UiAction::ShowMainWindow
    }
}

/// The answer `(t, a)` to a message `m` in state `s`.
pub open spec fn message_step(s: UiState, p: WindowPrefs, m: Seq<char>, t: UiState, a: UiAction) -> bool {
    if is_prefix("settings:"@, m) {
        match parse_settings_cmd(m) {
            Some(SettingsCmd::NewUA) => t == s && a == (UiAction::RegenerateUserAgent {
                notify_settings: s.settings_open,
            }),
            Some(SettingsCmd::SetSW(v)) => t == s && a == UiAction::SetServiceWorkers(v),
            Some(SettingsCmd::OpenDevTools) => t == s && a == UiAction::OpenDevTools,
            Some(SettingsCmd::Close) => t == with_settings(s, false) && a
                == UiAction::CloseSettingsWindow,
            None => t == s && a == UiAction::Nothing,
        }
    } else if m == "filter:ready"@ {
        if p.start_hidden {
            t == s && a == UiAction::Nothing
        } else {
            t == with_main(s, true) && a == UiAction::ShowMainWindow
        }
    } else if is_prefix("filter:"@, m) {
        let rest = m.skip("filter:"@.len() as int);
        &&& t == s
        &&& a matches UiAction::LogFilter { text, blocked }
        &&& text@ == rest
        &&& blocked == occurs_in(rest, "blocked"@)
    } else if m == TRAY_TOGGLE_MESSAGE@ {
        toggle_step(s, t, a)
    } else {
        t == s && a == UiAction::Nothing
    }
}

/// The answer `(t, a)` to event `e` in state `s` under the window settings `p`.
pub open spec fn ui_step_spec(s: UiState, p: WindowPrefs, e: UiEvent, t: UiState, a: UiAction) -> bool {
    match e {
        UiEvent::Menu(MenuChoice::Settings) => if s.settings_open {
            t == s && a == UiAction::FocusSettingsWindow
        } else {
            t == with_settings(s, true) && a == UiAction::OpenSettingsWindow
        },
        UiEvent::Menu(MenuChoice::Donate) => if s.donate_open {
            t == s && a == UiAction::FocusDonateWindow
        } else {
            t == with_donate(s, true) && a == UiAction::OpenDonateWindow
        },
        UiEvent::Menu(MenuChoice::About) => t == s && a == UiAction::ShowAbout,
        UiEvent::Tray(TrayChoice::ShowHide) => toggle_step(s, t, a),
        UiEvent::Tray(TrayChoice::Exit) => t == s && a == UiAction::Exit,
        UiEvent::Message(m) => message_step(s, p, m@, t, a),
        UiEvent::CloseRequested(WindowRole::Main) => if p.close_to_tray {
            t == with_main(s, false) && a == UiAction::HideMainWindow
        } else {
            t == s && a == UiAction::Exit
        },
        UiEvent::CloseRequested(WindowRole::Settings) => t == with_settings(s, false) && a
            == UiAction::CloseSettingsWindow,
        UiEvent::CloseRequested(WindowRole::Donate) => t == with_donate(s, false) && a
            == UiAction::CloseDonateWindow,
        UiEvent::CloseRequested(WindowRole::Other) => t == s && a == UiAction::Nothing,
        UiEvent::Other => t == s && a == UiAction::Nothing,
    }
}

/// Whether the main window starts hidden: the setting asks for it, or the
/// program was started with `--minimized`.
pub open spec fn starts_hidden_spec(start_minimized: bool, args: Seq<Seq<char>>) -> bool {
    start_minimized || args.contains("--minimized"@)
}

/// Whether the main window starts hidden, from the setting and the command
/// line arguments.
pub fn starts_hidden(start_minimized: bool, args: &[String]) -> (r: bool)
    ensures
        r == starts_hidden_spec(start_minimized, args.deep_view()),
{
    if start_minimized {
        return true;
    }
    let mut i: usize = 0;
    while i < args.len()
        invariant
            i <= args.len(),
            forall|j: int| 0 <= j < i ==> args.deep_view()[j] != "--minimized"@,
        decreases args.len() - i,
    {
        if str_equal(args[i].as_str(), "--minimized") {
            assert(args.deep_view()[i as int] == "--minimized"@);
            return true;
        }
        i = i + 1;
    }
    assert(!args.deep_view().contains("--minimized"@));
    false
}

/// Showing the main window when hidden, hiding it when shown.
fn toggle_main(state: UiState) -> (r: (UiState, UiAction))
    ensures
        toggle_step(state, r.0, r.1),
{
    if state.main_visible {
        (UiState { main_visible: false, ..state }, UiAction::HideMainWindow)
    } else {
        (UiState { main_visible: true, ..state }, UiAction::ShowMainWindow)
    }
}

/// The answer to a message of a web page, of the tray icon or of a second
/// start.
pub fn message_action(state: UiState, prefs: WindowPrefs, msg: &str) -> (r: (UiState, UiAction))
    ensures
        message_step(state, prefs, msg@, r.0, r.1),
{
    if starts_with(msg, "settings:") {
        match SettingsCmd::parse(msg) {
            Some(SettingsCmd::NewUA) => (
                state,
                UiAction::RegenerateUserAgent { notify_settings: state.settings_open },
            ),
            Some(SettingsCmd::SetSW(v)) => (state, UiAction::SetServiceWorkers(v)),
            Some(SettingsCmd::OpenDevTools) => (state, UiAction::OpenDevTools),
            Some(SettingsCmd::Close) => (
                UiState { settings_open: false, ..state },
                UiAction::CloseSettingsWindow,
            ),
            None => (state, UiAction::Nothing),
        }
    } else if str_equal(msg, "filter:ready") {
        if prefs.start_hidden {
            (state, UiAction::Nothing)
        } else {
            (UiState { main_visible: true, ..state }, UiAction::ShowMainWindow)
        }
    } else if starts_with(msg, "filter:") {
        proof {
            reveal_strlit("filter:");
        }
        let n = msg.unicode_len();
        let rest = msg.substring_char(7, n);
        let blocked = contains(rest, "blocked");
        (state, UiAction::LogFilter { text: String::from_str(rest), blocked })
    } else if str_equal(msg, TRAY_TOGGLE_MESSAGE) {
        toggle_main(state)
    } else {
        (state, UiAction::Nothing)
    }
}

/// The answer of the event loop to one event under the window settings
/// `prefs`: the next state and what to do.
pub fn ui_step(state: UiState, prefs: WindowPrefs, event: &UiEvent) -> (r: (UiState, UiAction))
    ensures
        ui_step_spec(state, prefs, *event, r.0, r.1),
{
    match event {
        UiEvent::Menu(MenuChoice::Settings) => {
            if state.settings_open {
                (state, UiAction::FocusSettingsWindow)
            } else {
                (UiState { settings_open: true, ..state }, UiAction::OpenSettingsWindow)
            }
        },
        UiEvent::Menu(MenuChoice::Donate) => {
            if state.donate_open {
                (state, UiAction::FocusDonateWindow)
            } else {
                (UiState { donate_open: true, ..state }, UiAction::OpenDonateWindow)
            }
        },
        UiEvent::Menu(MenuChoice::About) => (state, UiAction::ShowAbout),
        UiEvent::Tray(TrayChoice::ShowHide) => toggle_main(state),
        UiEvent::Tray(TrayChoice::Exit) => (state, UiAction::Exit),
        UiEvent::Message(m) => message_action(state, prefs, m.as_str()),
        UiEvent::CloseRequested(WindowRole::Main) => {
            if prefs.close_to_tray {
                (UiState { main_visible: false, ..state }, UiAction::HideMainWindow)
            } else {
                (state, UiAction::Exit)
            }
        },
        UiEvent::CloseRequested(WindowRole::Settings) => (
            UiState { settings_open: false, ..state },
            UiAction::CloseSettingsWindow,
        ),
        UiEvent::CloseRequested(WindowRole::Donate) => (
            UiState { donate_open: false, ..state },
            UiAction::CloseDonateWindow,
        ),
        UiEvent::CloseRequested(WindowRole::Other) => (state, UiAction::Nothing),
        UiEvent::Other => (state, UiAction::Nothing),
    }
}

/// Only messages of the settings page are settings commands: every command
/// comes from a message that starts with `settings:`.
pub proof fn lemma_commands_are_settings_messages(msg: Seq<char>)
    ensures
        parse_settings_cmd(msg) is Some ==> is_prefix("settings:"@, msg),
{
    reveal_strlit("settings:");
    reveal_strlit("settings:new_ua");
    reveal_strlit("settings:devtools");
    reveal_strlit("settings:close");
    reveal_strlit("settings:set_sw:");
    if msg == "settings:new_ua"@ {
        assert(msg.take(9) =~= "settings:"@);
    } else if msg == "settings:devtools"@ {
        assert(msg.take(9) =~= "settings:"@);
    } else if msg == "settings:close"@ {
        assert(msg.take(9) =~= "settings:"@);
    } else if is_prefix("settings:set_sw:"@, msg) {
        assert(msg.take(9) =~= "settings:set_sw:"@.take(9));
        assert("settings:set_sw:"@.take(9) =~= "settings:"@);
    }
}

/// The service-worker switch of the settings page reads back as sent:
/// `settings:set_sw:true` turns service workers on, `settings:set_sw:false`
/// turns them off.
pub proof fn lemma_set_sw_round_trip(on: bool)
    ensures
        parse_settings_cmd("settings:set_sw:"@ + (if on { "true"@ } else { "false"@ }))
            == Some(SettingsCmd::SetSW(on)),
{
    reveal_strlit("settings:new_ua");
    reveal_strlit("settings:devtools");
    reveal_strlit("settings:close");
    reveal_strlit("settings:set_sw:");
    reveal_strlit("true");
    reveal_strlit("false");
    let p = "settings:set_sw:"@;
    let v = if on { "true"@ } else { "false"@ };
    let msg = p + v;
    assert(msg.len() != "settings:new_ua"@.len());
    assert(msg.len() != "settings:devtools"@.len());
    assert(msg.len() != "settings:close"@.len());
    assert(msg.take(p.len() as int) =~= p);
    assert(msg.skip(p.len() as int) =~= v);
    assert(!is_prefix(p, v));
    assert(strip_prefix_repeatedly(v, p) == v);
    assert(strip_prefix_repeatedly(msg, p) == v);
    if !on {
        assert(v != "true"@);
    }
}

/// The settings window is never opened twice: choosing the menu item while
/// it is open only brings it to the front.
pub proof fn lemma_settings_window_opens_once(
    s: UiState,
    p: WindowPrefs,
    t: UiState,
    a: UiAction,
    u: UiState,
    b: UiAction,
)
    requires
        ui_step_spec(s, p, UiEvent::Menu(MenuChoice::Settings), t, a),
        ui_step_spec(t, p, UiEvent::Menu(MenuChoice::Settings), u, b),
    ensures
        t.settings_open,
        u == t,
        b == UiAction::FocusSettingsWindow,
{
}

/// Closing the main window hides it to the tray when the setting says so,
/// and quits otherwise; the secondary windows stay as they are.
pub proof fn lemma_main_close(s: UiState, p: WindowPrefs, t: UiState, a: UiAction)
    requires
        ui_step_spec(s, p, UiEvent::CloseRequested(WindowRole::Main), t, a),
    ensures
        p.close_to_tray ==> a == UiAction::HideMainWindow && !t.main_visible,
        !p.close_to_tray ==> a == UiAction::Exit,
        t.settings_open == s.settings_open,
        t.donate_open == s.donate_open,
{
}

/// Toggling the main window twice, from the tray menu or by message, brings
/// the state back to where it was.
pub proof fn lemma_toggle_twice(s: UiState, t: UiState, a: UiAction, u: UiState, b: UiAction)
    requires
        toggle_step(s, t, a),
        toggle_step(t, u, b),
    ensures
        u == s,
        t.main_visible != s.main_visible,
{
}

/// A window that starts hidden is not shown when its content is ready.
pub proof fn lemma_start_hidden_stays_hidden(s: UiState, p: WindowPrefs, t: UiState, a: UiAction)
    requires
        p.start_hidden,
        message_step(s, p, "filter:ready"@, t, a),
    ensures
        t == s,
        a == UiAction::Nothing,
{
    reveal_strlit("filter:ready");
    reveal_strlit("settings:");
    assert("filter:ready"@[0] != "settings:"@[0]);
    assert(!is_prefix("settings:"@, "filter:ready"@)) by {
        if is_prefix("settings:"@, "filter:ready"@) {
            assert("filter:ready"@.take(9)[0] == "settings:"@[0]);
        }
    }
}

/// The settings script hands the settings to the page: it sets
/// `window.__SETTINGS_JSON__` to the given JSON and, once the page's
/// `window.__applySettings` exists, calls it with that JSON, then stops
/// polling; whatever the JSON.
pub proof fn lemma_settings_script_applies_settings(settings_json: Seq<char>)
    ensures
        settings_script_text(settings_json) == "\n                        window.__SETTINGS_JSON__ = "@ + settings_json + ";\n                        var __settingsInterval = setInterval(function() {\n                            if (typeof window.__applySettings === 'function') {\n                                "@
            + "window.__applySettings(window.__SETTINGS_JSON__);"@ + "\n                                clearInterval(__settingsInterval);\n                            }\n                        }, 50);\n\n                        // Подстраховка: перестаем пытаться через 3 секунды, чтобы не крутить цикл вечно\n                        setTimeout(function() { clearInterval(__settingsInterval); }, 3000);\n                        "@,
        occurs_in(settings_script_text(settings_json), "window.__applySettings(window.__SETTINGS_JSON__);"@),
        is_prefix("\n                        window.__SETTINGS_JSON__ = "@, settings_script_text(settings_json)),
{
    reveal_strlit("\n                        window.__SETTINGS_JSON__ = ");
    reveal_strlit(";\n                        var __settingsInterval = setInterval(function() {\n                            if (typeof window.__applySettings === 'function') {\n                                window.__applySettings(window.__SETTINGS_JSON__);\n                                clearInterval(__settingsInterval);\n                            }\n                        }, 50);\n\n                        // Подстраховка: перестаем пытаться через 3 секунды, чтобы не крутить цикл вечно\n                        setTimeout(function() { clearInterval(__settingsInterval); }, 3000);\n                        ");
    reveal_strlit(";\n                        var __settingsInterval = setInterval(function() {\n                            if (typeof window.__applySettings === 'function') {\n                                ");
    reveal_strlit("window.__applySettings(window.__SETTINGS_JSON__);");
    reveal_strlit("\n                                clearInterval(__settingsInterval);\n                            }\n                        }, 50);\n\n                        // Подстраховка: перестаем пытаться через 3 секунды, чтобы не крутить цикл вечно\n                        setTimeout(function() { clearInterval(__settingsInterval); }, 3000);\n                        ");
    let head = "\n                        window.__SETTINGS_JSON__ = "@;
    let call = "window.__applySettings(window.__SETTINGS_JSON__);"@;
    let part1 = ";\n                        var __settingsInterval = setInterval(function() {\n                            if (typeof window.__applySettings === 'function') {\n                                "@;
    let part2 = "\n                                clearInterval(__settingsInterval);\n                            }\n                        }, 50);\n\n                        // Подстраховка: перестаем пытаться через 3 секунды, чтобы не крутить цикл вечно\n                        setTimeout(function() { clearInterval(__settingsInterval); }, 3000);\n                        "@;
    assert(SETTINGS_SCRIPT_HEAD@ =~= head);
    assert(SETTINGS_SCRIPT_TAIL@ =~= part1 + call + part2);
    let t = settings_script_text(settings_json);
    assert(t =~= head + settings_json + part1 + call + part2);
    let at = (head.len() + settings_json.len() + part1.len()) as int;
    assert(t.subrange(at, at + call.len()) =~= call);
    assert(occurs_at(t, call, at));
    assert(t.take(head.len() as int) =~= head);
}


/// Choosing "Donate" in the menu creates the donation window exactly when it
/// is not open, and otherwise only brings it to the front; either way it is
/// open afterwards and nothing else changes.
pub proof fn lemma_donate_menu(s: UiState, p: WindowPrefs, t: UiState, a: UiAction)
    requires
        ui_step_spec(s, p, UiEvent::Menu(MenuChoice::Donate), t, a),
    ensures
        (a == UiAction::OpenDonateWindow) <==> !s.donate_open,
        (a == UiAction::FocusDonateWindow) <==> s.donate_open,
        t.donate_open,
        t.settings_open == s.settings_open,
        t.main_visible == s.main_visible,
{
}

/// Choosing "Settings" in the menu creates the settings window exactly when
/// it is not open, and otherwise only brings it to the front; either way it is
/// open afterwards and nothing else changes.
pub proof fn lemma_settings_menu(s: UiState, p: WindowPrefs, t: UiState, a: UiAction)
    requires
        ui_step_spec(s, p, UiEvent::Menu(MenuChoice::Settings), t, a),
    ensures
        (a == UiAction::OpenSettingsWindow) <==> !s.settings_open,
        (a == UiAction::FocusSettingsWindow) <==> s.settings_open,
        t.settings_open,
        t.donate_open == s.donate_open,
        t.main_visible == s.main_visible,
{
}

/// The about item shows the about box and changes nothing.
pub proof fn lemma_about_menu(s: UiState, p: WindowPrefs, t: UiState, a: UiAction)
    requires
        ui_step_spec(s, p, UiEvent::Menu(MenuChoice::About), t, a),
    ensures
        a == UiAction::ShowAbout,
        t == s,
{
}

/// The tray icon's `tray:toggle` message (its double left click) hides a
/// shown main window and shows a hidden one; nothing else changes.
pub proof fn lemma_tray_toggle_message(s: UiState, p: WindowPrefs, t: UiState, a: UiAction)
    requires
        message_step(s, p, "tray:toggle"@, t, a),
    ensures
        t.main_visible == !s.main_visible,
        s.main_visible ==> a == UiAction::HideMainWindow,
        !s.main_visible ==> a == UiAction::ShowMainWindow,
        t.settings_open == s.settings_open,
        t.donate_open == s.donate_open,
{
    reveal_strlit("tray:toggle");
    reveal_strlit("settings:");
    reveal_strlit("filter:ready");
    reveal_strlit("filter:");
    let m = "tray:toggle"@;
    if is_prefix("settings:"@, m) {
        assert(m.take(9)[0] == m[0]);
    }
    if is_prefix("filter:"@, m) {
        assert(m.take(7)[0] == m[0]);
    }
    assert(m != "filter:ready"@) by {
        assert(m[0] != "filter:ready"@[0]);
    }
    assert(TRAY_TOGGLE_MESSAGE@ == m);
}

/// The tray menu's show/hide item hides a shown main window and shows a
/// hidden one; its exit item quits; nothing else changes.
pub proof fn lemma_tray_menu(s: UiState, p: WindowPrefs, c: TrayChoice, t: UiState, a: UiAction)
    requires
        ui_step_spec(s, p, UiEvent::Tray(c), t, a),
    ensures
        c == TrayChoice::ShowHide ==> t.main_visible == !s.main_visible && (s.main_visible ==> a
            == UiAction::HideMainWindow) && (!s.main_visible ==> a == UiAction::ShowMainWindow),
        c == TrayChoice::Exit ==> a == UiAction::Exit && t == s,
        t.settings_open == s.settings_open,
        t.donate_open == s.donate_open,
{
}

/// Closing the settings or donation window marks it closed and changes
/// nothing else; closing an unknown window does nothing.
pub proof fn lemma_close_secondary(s: UiState, p: WindowPrefs, w: WindowRole, t: UiState, a: UiAction)
    requires
        w != WindowRole::Main,
        ui_step_spec(s, p, UiEvent::CloseRequested(w), t, a),
    ensures
        w == WindowRole::Settings ==> a == UiAction::CloseSettingsWindow && !t.settings_open
            && t.donate_open == s.donate_open,
        w == WindowRole::Donate ==> a == UiAction::CloseDonateWindow && !t.donate_open
            && t.settings_open == s.settings_open,
        w == WindowRole::Other ==> a == UiAction::Nothing && t == s,
        t.main_visible == s.main_visible,
{
}

/// `filter:ready` shows the main window unless it is to start hidden, in
/// which case nothing happens.
pub proof fn lemma_filter_ready(s: UiState, p: WindowPrefs, t: UiState, a: UiAction)
    requires
        message_step(s, p, "filter:ready"@, t, a),
    ensures
        !p.start_hidden ==> a == UiAction::ShowMainWindow && t.main_visible,
        p.start_hidden ==> a == UiAction::Nothing && t == s,
        t.settings_open == s.settings_open,
        t.donate_open == s.donate_open,
{
    reveal_strlit("filter:ready");
    reveal_strlit("settings:");
    if is_prefix("settings:"@, "filter:ready"@) {
        assert("filter:ready"@.take(9)[0] == "filter:ready"@[0]);
    }
}

/// Any other `filter:` message is logged with the text after the prefix, as
/// a warning exactly when that text mentions `blocked`.
pub proof fn lemma_filter_log(s: UiState, p: WindowPrefs, rest: Seq<char>, t: UiState, a: UiAction)
    requires
        "filter:"@ + rest != "filter:ready"@,
        message_step(s, p, "filter:"@ + rest, t, a),
    ensures
        t == s,
        a matches UiAction::LogFilter { text, blocked } && text@ == rest && blocked == occurs_in(
            rest,
            "blocked"@,
        ),
{
    reveal_strlit("filter:");
    reveal_strlit("settings:");
    let m = "filter:"@ + rest;
    assert(m[0] == 'f');
    if is_prefix("settings:"@, m) {
        assert(m.take(9)[0] == m[0]);
    }
    assert(m.take(7) =~= "filter:"@);
    assert(m.skip(7) =~= rest);
}

/// The about box shows the version right after `neMAX v`, then the fixed
/// notice, whatever the version.
pub proof fn lemma_about_script_layout(version: Seq<char>)
    ensures
        about_script_text(version) == "alert('neMAX v"@ + version + "\\n\\nЛёгкий и безопасный клиент для max.ru\\n\\nДанное ПО является независимой разработкой и не связано с ООО «ВК» (ИНН 7743001840), ООО «Коммуникационная платформа» (ИНН 9714058267), ООО «МАХ» (ИНН 9714058267), ООО «Мэйл.ру Цифровые Технологии» (ИНН 7714415613) и структурами VK (Mail.ru Group).\\n\\nДанные передаются на сервер в исходном виде. Разработчик не дополняет и не модифицирует запросы (за исключением блокировки исходящей аналитики/статистики).\\n\\nУсловия использования (EULA):\\n- tos.nemax-mod.ru\\n- https://telegra.ph/LICENZIONNOE-SOGLASHENIE-KONECHNOGO-POLZOVATELYA-EULA-12-10\\n\\n© 2026 neMAX');"@,
        is_prefix("alert('neMAX v"@, about_script_text(version)),
{
    reveal_strlit("alert('neMAX v");
    reveal_strlit("\\n\\nЛёгкий и безопасный клиент для max.ru\\n\\nДанное ПО является независимой разработкой и не связано с ООО «ВК» (ИНН 7743001840), ООО «Коммуникационная платформа» (ИНН 9714058267), ООО «МАХ» (ИНН 9714058267), ООО «Мэйл.ру Цифровые Технологии» (ИНН 7714415613) и структурами VK (Mail.ru Group).\\n\\nДанные передаются на сервер в исходном виде. Разработчик не дополняет и не модифицирует запросы (за исключением блокировки исходящей аналитики/статистики).\\n\\nУсловия использования (EULA):\\n- tos.nemax-mod.ru\\n- https://telegra.ph/LICENZIONNOE-SOGLASHENIE-KONECHNOGO-POLZOVATELYA-EULA-12-10\\n\\n© 2026 neMAX');");
    reveal_strlit("alert('neMAX v");
    assert(about_script_text(version) =~= "alert('neMAX v"@ + version + "\\n\\nЛёгкий и безопасный клиент для max.ru\\n\\nДанное ПО является независимой разработкой и не связано с ООО «ВК» (ИНН 7743001840), ООО «Коммуникационная платформа» (ИНН 9714058267), ООО «МАХ» (ИНН 9714058267), ООО «Мэйл.ру Цифровые Технологии» (ИНН 7714415613) и структурами VK (Mail.ru Group).\\n\\nДанные передаются на сервер в исходном виде. Разработчик не дополняет и не модифицирует запросы (за исключением блокировки исходящей аналитики/статистики).\\n\\nУсловия использования (EULA):\\n- tos.nemax-mod.ru\\n- https://telegra.ph/LICENZIONNOE-SOGLASHENIE-KONECHNOGO-POLZOVATELYA-EULA-12-10\\n\\n© 2026 neMAX');"@);
    assert(about_script_text(version).take(14) =~= "alert('neMAX v"@);
}


/// The user-agent update script passes the user agent as a JSON string that
/// reads back as exactly that user agent.
pub proof fn lemma_ua_update_script_passes_ua(ua: Seq<char>)
    ensures
        is_prefix("if(window.__updateUA) window.__updateUA(\""@, ua_update_script_text(ua)),
        read_string_body(ua_update_script_text(ua).skip(41)) == Some(
            (ua, json_escape(ua).len() as int),
        ),
{
    reveal_strlit("if(window.__updateUA) window.__updateUA(");
    reveal_strlit("if(window.__updateUA) window.__updateUA(\"");
    reveal_strlit(");");
    let head = "if(window.__updateUA) window.__updateUA("@;
    let t = ua_update_script_text(ua);
    assert(head.len() == 40);
    assert(t =~= head + seq!['"'] + json_escape(ua) + seq!['"'] + ");"@);
    assert(t.take(41) =~= "if(window.__updateUA) window.__updateUA(\""@);
    assert(t.skip(41) =~= json_escape(ua) + seq!['"'] + ");"@);
    lemma_json_string_reads_back(ua, ");"@);
}

/// The exact settings-page messages are their commands, and a message that
/// does not start with `settings:` is no command.
pub proof fn lemma_parse_commands(msg: Seq<char>)
    ensures
        parse_settings_cmd("settings:new_ua"@) == Some(SettingsCmd::NewUA),
        parse_settings_cmd("settings:devtools"@) == Some(SettingsCmd::OpenDevTools),
        parse_settings_cmd("settings:close"@) == Some(SettingsCmd::Close),
        !is_prefix("settings:"@, msg) ==> parse_settings_cmd(msg) is None,
{
    lemma_commands_are_settings_messages(msg);
    reveal_strlit("settings:new_ua");
    reveal_strlit("settings:devtools");
    reveal_strlit("settings:close");
    assert("settings:devtools"@.len() != "settings:new_ua"@.len());
    assert("settings:close"@.len() != "settings:new_ua"@.len());
    assert("settings:close"@.len() != "settings:devtools"@.len());
}

/// Each settings command is answered by its action: a new user agent (told
/// to the settings page exactly when it is open), the service-worker switch
/// as sent, the developer tools, or closing the settings window; nothing else
/// changes.
pub proof fn lemma_settings_command_actions(
    s: UiState,
    p: WindowPrefs,
    m: Seq<char>,
    c: SettingsCmd,
    t: UiState,
    a: UiAction,
)
    requires
        parse_settings_cmd(m) == Some(c),
        message_step(s, p, m, t, a),
    ensures
        c == SettingsCmd::NewUA ==> t == s && a == (UiAction::RegenerateUserAgent {
            notify_settings: s.settings_open,
        }),
        c matches SettingsCmd::SetSW(v) ==> t == s && a == UiAction::SetServiceWorkers(v),
        c == SettingsCmd::OpenDevTools ==> t == s && a == UiAction::OpenDevTools,
        c == SettingsCmd::Close ==> !t.settings_open && t.donate_open == s.donate_open
            && t.main_visible == s.main_visible && a == UiAction::CloseSettingsWindow,
{
    lemma_commands_are_settings_messages(m);
}

/// The main window starts hidden when the setting asks for it, and otherwise
/// exactly when one of the arguments is `--minimized`.
pub proof fn lemma_starts_hidden(start_minimized: bool, args: Seq<Seq<char>>)
    ensures
        start_minimized ==> starts_hidden_spec(start_minimized, args),
        !start_minimized ==> (starts_hidden_spec(start_minimized, args) <==> exists|i: int|
            0 <= i < args.len() && #[trigger] args[i] == "--minimized"@),
{
}

} // verus!
