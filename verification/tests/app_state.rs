use alacritty_theme_manager::app::{action_for_key, Action, App, ExitAction, GitRun, Key};
use alacritty_theme_manager::config::current_theme_stem;

const HOME: &str = "/home/u";
const DIR: &str = "/home/u/.config/alacritty/themes/themes";
const CONFIG: &str = "/home/u/.config/alacritty/alacritty.toml";

fn entries(names: &[&str]) -> Vec<String> {
    names.iter().map(|n| format!("{n}.toml")).collect()
}

fn app_with(config: Option<&str>, names: &[&str]) -> App {
    App::new(
        CONFIG.to_string(),
        DIR.to_string(),
        HOME.to_string(),
        config,
        &entries(names),
        true,
    )
}

fn current(app: &App) -> Option<String> {
    current_theme_stem(app.document(), DIR, HOME)
}

const NORD: &str = "[general]\nimport = [\"~/.config/alacritty/themes/themes/nord.toml\"]\n";

#[test]
fn starts_on_original_theme() {
    let app = app_with(Some(NORD), &["dracula", "nord", "one_dark"]);
    assert_eq!(app.original_theme, Some("nord".to_string()));
    assert_eq!(app.selected, Some(1));
    assert_eq!(app.selected_theme(), Some("nord"));
    assert_eq!(app.status_msg, None);
    assert_eq!(app.config_path(), CONFIG);
    assert_eq!(app.themes_dir(), DIR);
}

#[test]
fn starts_on_first_theme_without_original() {
    let app = app_with(None, &["one_dark", "dracula"]);
    assert_eq!(app.original_theme, None);
    assert_eq!(app.themes, vec!["dracula".to_string(), "one_dark".to_string()]);
    assert_eq!(app.selected, Some(0));
}

#[test]
fn starts_on_first_theme_when_original_missing() {
    let app = app_with(Some(NORD), &["dracula", "one_dark"]);
    assert_eq!(app.original_theme, Some("nord".to_string()));
    assert_eq!(app.selected, Some(0));
}

#[test]
fn empty_theme_list_selects_nothing() {
    let mut app = app_with(Some(NORD), &[]);
    assert_eq!(app.selected, None);
    assert_eq!(app.selected_theme(), None);
    assert!(!app.move_up());
    assert!(!app.move_down());
    assert!(!app.apply_selected());
    assert_eq!(current(&app), Some("nord".to_string()));
}

#[test]
fn moving_wraps_round_and_applies() {
    let mut app = app_with(Some(NORD), &["a", "b", "nord"]);
    assert_eq!(app.selected, Some(2));
    assert!(app.move_down());
    assert_eq!(app.selected, Some(0));
    assert_eq!(current(&app), Some("a".to_string()));
    assert!(app.move_up());
    assert_eq!(app.selected, Some(2));
    assert_eq!(current(&app), Some("nord".to_string()));
    assert!(app.move_up());
    assert_eq!(app.selected, Some(1));
    assert_eq!(current(&app), Some("b".to_string()));
}

#[test]
fn moving_clears_status() {
    let mut app = app_with(None, &["a", "b"]);
    app.status_msg = Some("Already up to date".to_string());
    app.move_down();
    assert_eq!(app.status_msg, None);
}

#[test]
fn down_then_up_returns() {
    let mut app = app_with(None, &["a", "b", "c", "d"]);
    for _ in 0..4 {
        let before = app.selected;
        app.move_down();
        app.move_up();
        assert_eq!(app.selected, before);
        app.move_down();
    }
    assert_eq!(app.selected, Some(0));
}

#[test]
fn restore_puts_original_back() {
    let mut app = app_with(Some(NORD), &["a", "b", "nord"]);
    app.move_down();
    assert_eq!(current(&app), Some("a".to_string()));
    assert!(app.restore_original());
    assert_eq!(current(&app), Some("nord".to_string()));
}

#[test]
fn restore_without_original_removes_theme() {
    let text = "[general]\nimport = [\"~/keys.toml\"]\n";
    let mut app = app_with(Some(text), &["a", "b"]);
    app.apply_selected();
    app.move_down();
    assert_eq!(current(&app), Some("b".to_string()));
    assert!(app.restore_original());
    assert_eq!(current(&app), None);
    assert_eq!(app.document().to_string(), text);
    assert_eq!(app.config_text(), text);
}

#[test]
fn inline_general_is_not_editable() {
    let app = app_with(Some("general = { import = [] }\n"), &["a"]);
    assert!(!app.config_editable());
    let app = app_with(Some("[general]\n"), &["a"]);
    assert!(app.config_editable());
    let app = app_with(None, &["a"]);
    assert!(app.config_editable());
}

#[test]
fn repo_dir_is_parent_of_themes_dir() {
    let app = app_with(None, &["a"]);
    assert_eq!(app.repo_dir(), Some("/home/u/.config/alacritty/themes".to_string()));
    assert_eq!(
        App::git_dir_of(DIR),
        Some("/home/u/.config/alacritty/themes/.git".to_string())
    );
    assert_eq!(App::git_dir_of("/"), None);
}

#[test]
fn git_pull_messages() {
    let mut app = app_with(None, &["a", "b"]);
    let none = Vec::new();
    assert_eq!(app.git_pull(GitRun::NoRepoDir, &none), "error: cannot determine repo directory");
    assert_eq!(
        app.git_pull(GitRun::SpawnFailed("No such file or directory (os error 2)".to_string()), &none),
        "failed to run git: No such file or directory (os error 2)"
    );
    let failed = GitRun::Finished {
        success: false,
        stdout: String::new(),
        stderr: "fatal: not a git repository\r\nmore\n".to_string(),
    };
    assert_eq!(app.git_pull(failed, &none), "git error: fatal: not a git repository");
    let failed_silently = GitRun::Finished {
        success: false,
        stdout: String::new(),
        stderr: String::new(),
    };
    assert_eq!(app.git_pull(failed_silently, &none), "git error: unknown error");
    let up_to_date = GitRun::Finished {
        success: true,
        stdout: "Already up to date.\n".to_string(),
        stderr: String::new(),
    };
    assert_eq!(app.git_pull(up_to_date, &none), "Already up to date");
    assert_eq!(app.themes, vec!["a".to_string(), "b".to_string()]);
}

#[test]
fn git_pull_refreshes_list_and_keeps_selection() {
    let mut app = app_with(None, &["a", "b"]);
    app.move_down();
    assert_eq!(app.selected_theme(), Some("b"));
    let updated = GitRun::Finished {
        success: true,
        stdout: "Updating 1234..5678\nFast-forward\n".to_string(),
        stderr: String::new(),
    };
    let msg = app.git_pull(updated, &entries(&["c", "b", "a0"]));
    assert_eq!(msg, "Updated — theme list refreshed");
    assert_eq!(app.themes, vec!["a0".to_string(), "b".to_string(), "c".to_string()]);
    assert_eq!(app.selected_theme(), Some("b"));
}

#[test]
fn git_pull_refresh_falls_back_to_first() {
    let mut app = app_with(None, &["a", "b"]);
    let updated = GitRun::Finished {
        success: true,
        stdout: "Fast-forward\n".to_string(),
        stderr: String::new(),
    };
    app.git_pull(updated, &entries(&["x", "y"]));
    assert_eq!(app.selected, Some(0));
    assert_eq!(app.selected_theme(), Some("x"));
}

#[test]
fn keys_map_to_actions() {
    assert_eq!(action_for_key(Key::Up, false), Action::MoveUp);
    assert_eq!(action_for_key(Key::Char('k'), false), Action::MoveUp);
    assert_eq!(action_for_key(Key::Down, false), Action::MoveDown);
    assert_eq!(action_for_key(Key::Char('j'), true), Action::MoveDown);
    assert_eq!(action_for_key(Key::Enter, false), Action::Exit(ExitAction::KeepCurrent));
    assert_eq!(action_for_key(Key::Esc, false), Action::Exit(ExitAction::RestoreOriginal));
    assert_eq!(action_for_key(Key::Char('q'), true), Action::Exit(ExitAction::RestoreOriginal));
    assert_eq!(action_for_key(Key::Char('u'), true), Action::GitPull);
    assert_eq!(action_for_key(Key::Char('u'), false), Action::Nothing);
    assert_eq!(action_for_key(Key::Char('x'), true), Action::Nothing);
    assert_eq!(action_for_key(Key::Other, true), Action::Nothing);
}

#[test]
fn config_that_is_not_toml_is_never_saved() {
    let text = "this is = = not toml";
    let mut app = app_with(Some(text), &["a", "b"]);
    assert!(!app.can_save);
    assert!(!app.apply_selected());
    assert!(!app.move_down());
    assert!(!app.move_up());
    assert!(!app.restore_original());
}

#[test]
fn readable_or_missing_config_is_saved() {
    let mut app = app_with(None, &["a", "b"]);
    assert!(app.can_save);
    assert!(app.apply_selected());
    assert!(app.move_down());
    assert_eq!(
        app.config_text(),
        "[general]\nimport = [\"~/.config/alacritty/themes/themes/b.toml\"]\n"
    );
    let mut app = app_with(Some(NORD), &[]);
    assert!(!app.apply_selected());
    assert!(!app.move_down());
}

#[test]
fn moving_keeps_other_settings() {
    let text = "# my settings\n[general]\nimport = [\"~/keys.toml\"]\n\n[font]\nsize = 12\n";
    let mut app = app_with(Some(text), &["a", "b"]);
    assert!(app.apply_selected());
    assert!(app.move_down());
    let out = app.config_text();
    assert!(out.starts_with("# my settings\n[general]\n"));
    assert!(out.contains("[font]\nsize = 12\n"));
    assert!(app.restore_original());
    assert_eq!(app.config_text(), text);
}

#[test]
fn moving_up_through_the_list_comes_back() {
    let mut app = app_with(Some(NORD), &["a", "b", "nord", "z"]);
    assert_eq!(app.selected, Some(2));
    for _ in 0..4 {
        app.move_up();
    }
    assert_eq!(app.selected, Some(2));
    assert_eq!(current(&app), Some("nord".to_string()));
    app.move_down();
    app.move_up();
    assert_eq!(app.selected, Some(2));
    assert_eq!(current(&app), Some("nord".to_string()));
}
