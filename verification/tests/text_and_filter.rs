use nemax::filter::{
    blocklist_entries_of, blocklist_from_lines, build_filter_script, default_blocklist,
    sound_base64,
};
use nemax::text::{contains, replace_str, starts_with, str_equal, strip_prefix_repeatedly_str, trim_str};

fn strings(v: &[&str]) -> Vec<String> {
    v.iter().map(|s| s.to_string()).collect()
}

#[test]
fn trim_removes_unicode_white_space() {
    assert_eq!(trim_str("  abc \t\n"), "abc");
    assert_eq!(trim_str("\u{3000}x y\u{a0}"), "x y");
    assert_eq!(trim_str("   "), "");
    assert_eq!(trim_str(""), "");
    assert_eq!(trim_str("a"), "a");
    let s = " \u{2003}mixed\u{85} ";
    assert_eq!(trim_str(s), s.trim());
}

#[test]
fn trim_is_idempotent_on_examples() {
    for s in ["  a b  ", "\tq", "z\r\n", "", "   "] {
        let once = trim_str(s);
        assert_eq!(trim_str(once), once);
    }
}

#[test]
fn replace_matches_std_replace() {
    let cases = [
        ("a__X__b__X__", "__X__", "yy"),
        ("aaaa", "aa", "b"),
        ("no placeholder", "__X__", "zz"),
        ("über __X__ ß", "__X__", "ünïcode"),
        ("", "x", "y"),
        ("xxx", "x", "x"),
    ];
    for (s, p, r) in cases {
        assert_eq!(replace_str(s, p, r), s.replace(p, r));
    }
}

#[test]
fn replace_absent_pattern_keeps_text() {
    assert_eq!(replace_str("hello world", "__RING_B64__", "abc"), "hello world");
}

#[test]
fn string_predicates() {
    assert!(str_equal("abc", "abc"));
    assert!(!str_equal("abc", "abd"));
    assert!(!str_equal("abc", "ab"));
    assert!(starts_with("settings:close", "settings:"));
    assert!(!starts_with("set", "settings:"));
    assert!(contains("request blocked: x", "blocked"));
    assert!(!contains("request allowed", "blocked"));
    assert!(contains("anything", ""));
    assert_eq!(strip_prefix_repeatedly_str("ababc", "ab"), "c");
    assert_eq!(strip_prefix_repeatedly_str("abc", "x"), "abc");
    assert_eq!(strip_prefix_repeatedly_str("abc", ""), "abc");
}

#[test]
fn blocklist_entries_are_trimmed_and_skip_comments() {
    let lines = strings(&["  analytics  ", "", "# comment", "   ", "tracker", "  #also"]);
    let entries = blocklist_entries_of(&lines);
    assert_eq!(entries, strings(&["analytics", "tracker"]));
    assert_eq!(blocklist_from_lines(&lines), strings(&["analytics", "tracker"]));
}

#[test]
fn empty_blocklist_falls_back_to_defaults() {
    let lines = strings(&["# only comments", "   "]);
    let list = blocklist_from_lines(&lines);
    assert_eq!(list, default_blocklist());
    assert_eq!(list.len(), 22);
    assert_eq!(list[0], "analytics");
    assert_eq!(list[21], "crash");
    assert_eq!(blocklist_from_lines(&[]), default_blocklist());
}

#[test]
fn effective_blocklist_is_never_empty_and_clean() {
    for lines in [strings(&[]), strings(&["#x"]), strings(&[" a "])] {
        let list = blocklist_from_lines(&lines);
        assert!(!list.is_empty());
        for e in &list {
            assert_eq!(e.trim(), e);
            assert!(!e.is_empty() && !e.starts_with('#'));
        }
    }
}

#[test]
fn sound_is_base64_or_empty() {
    assert_eq!(sound_base64(None), "");
    assert_eq!(sound_base64(Some(b"hello")), "aGVsbG8=");
    assert_eq!(sound_base64(Some(b"")), "");
    assert_eq!(sound_base64(Some(b"ab")), "YWI=");
    assert_eq!(sound_base64(Some(&[0xfb, 0xff, 0xbf])), "+/+/");
}

#[test]
fn filter_script_fills_placeholders() {
    let template = "sigs=__SIGNATURES__; sw=__ALLOW_SW__; n='__NOTIF_B64__'; r='__RING_B64__'; c='__RECON_B64__'";
    let list = strings(&["ads", "quote\"back\\slash", "tab\tctl\u{1}"]);
    let out = build_filter_script(template, &list, true, Some(b"hi"), None, Some(b"abc"));
    assert_eq!(
        out,
        "sigs=[\"ads\",\"quote\\\"back\\\\slash\",\"tab\\tctl\\u0001\"]; sw=true; n='aGk='; r=''; c='YWJj'"
    );
    let out = build_filter_script("__ALLOW_SW__/__SIGNATURES__", &[], false, None, None, None);
    assert_eq!(out, "false/[]");
}

#[test]
fn filter_template_without_placeholders_is_kept() {
    let template = "console.log('no placeholders here');";
    let list = strings(&["x"]);
    assert_eq!(build_filter_script(template, &list, true, Some(b"zz"), None, None), template);
}

#[test]
fn signatures_stay_inside_their_json_strings() {
    let list = strings(&["a\"]; alert(1); //", "back\\", "line\nbreak", "ctl\u{1f}"]);
    let out = build_filter_script("__SIGNATURES__", &list, false, None, None, None);
    assert_eq!(out, "[\"a\\\"]; alert(1); //\",\"back\\\\\",\"line\\nbreak\",\"ctl\\u001f\"]");
}

#[test]
fn sound_text_uses_base64_alphabet() {
    let bytes: Vec<u8> = (0..=255u8).collect();
    let text = sound_base64(Some(&bytes));
    assert_eq!(text.len(), (bytes.len() + 2) / 3 * 4);
    assert!(text.chars().all(|c| c.is_ascii_alphanumeric() || c == '+' || c == '/' || c == '='));
}

#[test]
fn filter_script_layout_example() {
    let template = "var s = __SIGNATURES__; var w = __ALLOW_SW__; play('__NOTIF_B64__', '__RING_B64__', '__RECON_B64__');";
    let list = strings(&["ads", "say \"hi\""]);
    let out = build_filter_script(template, &list, false, Some(b"a"), Some(b""), None);
    assert_eq!(out, "var s = [\"ads\",\"say \\\"hi\\\"\"]; var w = false; play('YQ==', '', '');");
}
