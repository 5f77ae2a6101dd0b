use tasks::client::{improved_content, ApiOutcome};
use tasks::clock::format_timestamp;
use tasks::config::{load_config, serialize_config, Config};
use tasks::task::{resolve_target, task_line};
use tasks::text::trim_chars;

fn chars(s: &str) -> Vec<char> {
    s.chars().collect()
}

fn text(v: &[char]) -> String {
    v.iter().collect()
}

#[test]
fn transport_failure_line_is_clipboard_fallback() {
    let content = improved_content(&ApiOutcome::Transport, &chars("buy milk"));
    assert_eq!(text(&content), "- [ ] \u{1F4CB}buy milk");
    let ts = format_timestamp(7, 3, 2026, 9, 5);
    let line = task_line(&content, &ts);
    assert_eq!(text(&line), "- [ ] \u{1F4CB}buy milk - \u{1F553}07/03/2026 09:05");
}

#[test]
fn failure_status_line_keeps_single_prefix() {
    let content = improved_content(&ApiOutcome::HttpError, &chars("buy milk"));
    assert_eq!(text(&content), "- [ ] buy milk");
    let ts = format_timestamp(31, 12, 1999, 23, 59);
    let line = task_line(&content, &ts);
    assert_eq!(text(&line), "- [ ] buy milk - \u{1F553}31/12/1999 23:59");
}

#[test]
fn content_may_start_with_hyphen() {
    let content = improved_content(&ApiOutcome::Transport, &chars("-urgent"));
    assert_eq!(text(&content), "- [ ] \u{1F4CB}-urgent");
}

#[test]
fn timestamp_is_zero_padded() {
    assert_eq!(text(&format_timestamp(1, 1, 0, 0, 0)), "01/01/0000 00:00");
    assert_eq!(text(&format_timestamp(9, 10, 245, 4, 40)), "09/10/0245 04:40");
}

#[test]
fn timestamp_far_years_keep_their_digits() {
    assert_eq!(text(&format_timestamp(1, 2, 12345, 3, 4)), "01/02/12345 03:04");
    assert_eq!(text(&format_timestamp(1, 2, -12, 3, 4)), "01/02/-0012 03:04");
}

#[test]
fn explicit_file_overrides_global() {
    let r = resolve_target(Some(chars("a.md")), Some(chars("g.md")));
    assert_eq!(r, Some(chars("a.md")));
}

#[test]
fn global_file_used_when_no_flag() {
    let r = resolve_target(None, Some(chars("g.md")));
    assert_eq!(r, Some(chars("g.md")));
}

#[test]
fn no_target_without_flag_or_global() {
    assert_eq!(resolve_target(None, None), None);
}

#[test]
fn configured_global_file_reaches_create() {
    let saved = serialize_config(&Config { global_file: Some(chars("/tmp/x.md")) });
    let (loaded, warned) = load_config(Some(&saved));
    assert!(!warned);
    let target = resolve_target(None, loaded.global_file);
    assert_eq!(target, Some(chars("/tmp/x.md")));
}

#[test]
fn current_timestamp_has_the_expected_shape() {
    let ts = tasks::clock::timestamp_now();
    assert_eq!(ts.len(), 16);
    assert_eq!(ts[2], '/');
    assert_eq!(ts[5], '/');
    assert_eq!(ts[10], ' ');
    assert_eq!(ts[13], ':');
    for i in [0, 1, 3, 4, 6, 7, 8, 9, 11, 12, 14, 15] {
        assert!(ts[i].is_ascii_digit());
    }
}

#[test]
fn trim_matches_std_trim() {
    let samples = [
        "  buy milk\n",
        "\n\nDo the thing  ",
        "\u{00A0}\u{2003}x\u{3000}",
        "unchanged",
        "   ",
        "",
        "\t\r\u{000B}\u{000C}y\u{0085}\u{2028}\u{2029}\u{202F}\u{205F}\u{1680}\u{200A}",
    ];
    for s in samples {
        assert_eq!(text(&trim_chars(&s.chars().collect())), s.trim());
    }
}
