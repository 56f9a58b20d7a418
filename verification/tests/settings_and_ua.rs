use nemax::settings::{default_true, Settings};
use nemax::ua_gen::{
    all_platforms, chrome_versions, format_user_agent, generate_user_agent, WEBKIT_VERSION,
};

fn is_generated(ua: &str) -> bool {
    all_platforms().iter().any(|p| {
        chrome_versions().iter().any(|c| ua == format_user_agent(p, c))
    })
}

#[test]
fn user_agent_format() {
    assert_eq!(
        format_user_agent("X11; Linux x86_64", "130.0.0.0"),
        "Mozilla/5.0 (X11; Linux x86_64) AppleWebKit/537.36 (KHTML, like Gecko) Chrome/130.0.0.0 Safari/537.36"
    );
    assert_eq!(WEBKIT_VERSION, "537.36");
}

#[test]
fn platform_and_version_lists() {
    let p = all_platforms();
    assert_eq!(p.len(), 9);
    assert_eq!(p[0], "Windows NT 10.0; Win64; x64");
    assert_eq!(p[3], "X11; Linux x86_64");
    assert_eq!(p[8], "Macintosh; Intel Mac OS X 14_0");
    let v = chrome_versions();
    assert_eq!(v.len(), 16);
    assert_eq!(v[0], "120.0.0.0");
    assert_eq!(v[15], "135.0.0.0");
}

#[test]
fn generated_user_agents_come_from_the_lists() {
    for _ in 0..50 {
        let ua = generate_user_agent();
        assert!(is_generated(&ua), "{}", ua);
        assert!(ua.starts_with("Mozilla/5.0 ("));
        assert!(ua.ends_with(" Safari/537.36"));
    }
}

#[test]
fn fresh_settings() {
    let s = Settings::default();
    assert!(is_generated(&s.user_agent));
    assert!(!s.allow_service_workers);
    assert!(s.close_to_tray);
    assert!(!s.start_minimized);
    assert!(!s.auto_start);
    assert!(default_true());
}

#[test]
fn stored_settings_are_kept() {
    let stored = Settings {
        user_agent: "UA".to_string(),
        allow_service_workers: true,
        close_to_tray: false,
        start_minimized: true,
        auto_start: true,
    };
    let (s, save) = Settings::from_stored(Some(stored));
    assert!(!save);
    assert_eq!(s.user_agent, "UA");
    assert!(s.allow_service_workers && !s.close_to_tray && s.start_minimized && s.auto_start);
    let (s, save) = Settings::from_stored(None);
    assert!(save);
    assert!(!s.allow_service_workers && s.close_to_tray);
}

#[test]
fn setters_change_one_field() {
    let mut s = Settings {
        user_agent: "UA".to_string(),
        allow_service_workers: false,
        close_to_tray: true,
        start_minimized: false,
        auto_start: false,
    };
    s.set_service_workers(true);
    assert!(s.allow_service_workers);
    s.set_close_to_tray(false);
    assert!(!s.close_to_tray);
    s.set_auto_start(true);
    assert!(s.auto_start);
    assert_eq!(s.user_agent, "UA");
    assert!(!s.start_minimized);
    s.set_service_workers(false);
    assert!(!s.allow_service_workers);
}

#[test]
fn randomize_ua_stores_and_returns_new_agent() {
    let mut s = Settings {
        user_agent: "old".to_string(),
        allow_service_workers: true,
        close_to_tray: false,
        start_minimized: true,
        auto_start: false,
    };
    let ua = s.randomize_ua();
    assert_eq!(s.user_agent, ua);
    assert!(is_generated(&ua));
    assert!(s.allow_service_workers && !s.close_to_tray && s.start_minimized && !s.auto_start);
}
