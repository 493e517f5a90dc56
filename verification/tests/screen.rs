use alacritty_theme_manager::locations::{
    config_candidates, default_config_path, default_themes_dir, resolve_config_path,
    resolve_themes_dir, themes_candidates, xdg_config_home,
};
use alacritty_theme_manager::text::{contains_text, first_line, starts_with_text};
use alacritty_theme_manager::preview::{preview_lines, StyledSpan};
use alacritty_theme_manager::ui::{footer_spans, list_offset, status_color};

#[test]
fn offset_keeps_selection_centred() {
    assert_eq!(list_offset(100, Some(50), 10), 45);
    assert_eq!(list_offset(100, Some(2), 10), 0);
    assert_eq!(list_offset(100, Some(98), 10), 90);
    assert_eq!(list_offset(5, Some(4), 10), 0);
    assert_eq!(list_offset(100, None, 10), 0);
    assert_eq!(list_offset(100, Some(50), 0), 0);
}

#[test]
fn offset_shows_selection() {
    for len in 0..30usize {
        for height in 1..12usize {
            for sel in 0..len {
                let off = list_offset(len, Some(sel), height);
                assert!(off <= sel && sel < off + height);
                assert!(height > len || off + height <= len);
            }
        }
    }
}

#[test]
fn status_colours() {
    assert_eq!(status_color("git error: fatal"), 1);
    assert_eq!(status_color("failed to run git: x"), 1);
    assert_eq!(status_color("error: cannot determine repo directory"), 1);
    assert_eq!(status_color("Already up to date"), 2);
    assert_eq!(status_color("Updated — theme list refreshed"), 2);
}

#[test]
fn text_helpers() {
    assert_eq!(first_line(""), None);
    assert_eq!(first_line("\n"), Some("".to_string()));
    assert_eq!(first_line("abc"), Some("abc".to_string()));
    assert_eq!(first_line("abc\r"), Some("abc\r".to_string()));
    assert_eq!(first_line("abc\r\ndef"), Some("abc".to_string()));
    for s in ["", "x", "a\nb", "\r\n", "x\ry\n", "é\n"] {
        assert_eq!(first_line(s), s.lines().next().map(|l| l.to_string()));
    }
    assert!(contains_text("Already up to date.", "Already up to date"));
    assert!(!contains_text("Already up-to-date.", "Already up to date"));
    assert!(contains_text("abc", ""));
    assert!(starts_with_text("git error: x", "git error"));
    assert!(!starts_with_text("git", "git error"));
}

#[test]
fn default_locations() {
    assert_eq!(xdg_config_home(None, "/home/u"), "/home/u/.config");
    assert_eq!(xdg_config_home(Some("/xdg"), "/home/u"), "/xdg");
    assert_eq!(default_config_path("/home/u/.config"), "/home/u/.config/alacritty/alacritty.toml");
    assert_eq!(default_themes_dir("/home/u/.config"), "/home/u/.config/alacritty/themes/themes");
    assert_eq!(
        config_candidates("/c", "/home/u", true),
        vec![
            "/c/alacritty/alacritty.toml".to_string(),
            "/home/u/Library/Application Support/alacritty/alacritty.toml".to_string(),
        ]
    );
    assert_eq!(config_candidates("/c", "/home/u", false), vec!["/c/alacritty/alacritty.toml".to_string()]);
    assert_eq!(themes_candidates("/c"), vec!["/c/alacritty/themes/themes".to_string()]);
}

#[test]
fn resolution_order() {
    let cands = vec!["/a".to_string(), "/b".to_string()];
    assert_eq!(resolve_config_path(Some("/env"), &cands, &vec![true, true], "/c"), "/env");
    assert_eq!(resolve_config_path(None, &cands, &vec![false, true], "/c"), "/b");
    assert_eq!(resolve_config_path(None, &cands, &vec![true, true], "/c"), "/a");
    assert_eq!(
        resolve_config_path(None, &cands, &vec![false, false], "/c"),
        "/c/alacritty/alacritty.toml"
    );
    assert_eq!(resolve_config_path(None, &cands, &vec![], "/c"), "/c/alacritty/alacritty.toml");
    assert_eq!(resolve_themes_dir(None, &cands, &vec![false], "/c"), "/c/alacritty/themes/themes");
    assert_eq!(resolve_themes_dir(Some("/t"), &cands, &vec![false], "/c"), "/t");
}

fn texts(line: &[StyledSpan]) -> Vec<(String, Option<u8>, bool)> {
    line.iter().map(|s| (s.text.clone(), s.color, s.bold)).collect()
}

fn span(text: &str, color: Option<u8>) -> (String, Option<u8>, bool) {
    (text.to_string(), color, false)
}

#[test]
fn preview_palette_rows() {
    let lines = preview_lines();
    assert_eq!(lines.len(), 32);
    assert_eq!(
        texts(&lines[0]),
        vec![span("  ── palette ─────────────────────────────────────────────", Some(8))]
    );
    let names = ["black", "red", "green", "yellow", "blue", "magenta", "cyan", "white"];
    for (k, name) in names.iter().enumerate() {
        let row = texts(&lines[k + 1]);
        let pad = " ".repeat(7 - name.len());
        let k = k as u8;
        assert_eq!(
            row,
            vec![
                span("  ", None),
                span("██", Some(k)),
                span(" ", None),
                span(name, Some(k)),
                span(&pad, None),
                span("    ", None),
                span("██", Some(k + 8)),
                span(" ", None),
                span(&format!("bright {name}"), Some(k + 8)),
            ]
        );
    }
    assert_eq!(texts(&lines[9]), vec![span("", None)]);
    assert_eq!(lines[10][0].text, "  ── code ────────────────────────────────────────────────");
    assert_eq!(lines[24][0].text, "  ── terminal ────────────────────────────────────────────");
    let last = texts(&lines[31]);
    assert_eq!(last[1], ("[✓]".to_string(), Some(10), true));
    for line in &lines {
        for s in line {
            assert!(s.color.map_or(true, |c| c <= 15));
        }
    }
}

#[test]
fn footer_hints_and_status() {
    assert_eq!(
        texts(&footer_spans(Some("git error: fatal"), true)),
        vec![span("git error: fatal", Some(1))]
    );
    assert_eq!(
        texts(&footer_spans(Some("Already up to date"), false)),
        vec![span("Already up to date", Some(2))]
    );
    let hints = vec![
        span(" ↑↓ jk ", Some(3)),
        span("navigate   ", None),
        span("Enter ", Some(10)),
        span("keep   ", None),
        span("Esc/q ", Some(1)),
        span("restore & exit", None),
    ];
    assert_eq!(texts(&footer_spans(None, false)), hints);
    let mut git = hints.clone();
    git.push(span("   ", None));
    git.push(span("u ", Some(14)));
    git.push(span("update themes", None));
    assert_eq!(texts(&footer_spans(None, true)), git);
}
