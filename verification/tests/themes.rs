use alacritty_theme_manager::themes::{is_theme_import, load_themes, make_theme_path};

const HOME: &str = "/home/u";
const DIR: &str = "/home/u/.config/alacritty/themes/themes";

#[test]
fn theme_path_under_home_uses_tilde() {
    assert_eq!(
        make_theme_path(DIR, "dracula", HOME),
        "~/.config/alacritty/themes/themes/dracula.toml"
    );
}

#[test]
fn theme_path_outside_home_is_absolute() {
    assert_eq!(make_theme_path("/opt/themes", "nord", HOME), "/opt/themes/nord.toml");
    assert_eq!(make_theme_path("rel/themes", "nord", HOME), "rel/themes/nord.toml");
}

#[test]
fn theme_path_of_home_itself() {
    assert_eq!(make_theme_path(HOME, "x", HOME), "~/x.toml");
    assert_eq!(make_theme_path("/home/u/", "x", "/home/u/"), "~/x.toml");
}

#[test]
fn theme_import_recognised() {
    assert!(is_theme_import("~/.config/alacritty/themes/themes/dracula.toml", DIR, HOME));
    assert!(is_theme_import(
        "/home/u/.config/alacritty/themes/themes/dracula.toml",
        DIR,
        HOME
    ));
    assert!(is_theme_import("/home/u/.config/alacritty/themes/themes//nord.toml", DIR, HOME));
    assert!(is_theme_import("/home/u/.config/alacritty/themes/themes/./nord.toml", DIR, HOME));
}

#[test]
fn other_imports_not_theme_imports() {
    assert!(!is_theme_import("~/.config/alacritty/keys.toml", DIR, HOME));
    assert!(!is_theme_import("~/.config/alacritty/themes/themes/sub/x.toml", DIR, HOME));
    assert!(!is_theme_import("/", DIR, HOME));
    assert!(!is_theme_import("", DIR, HOME));
    assert!(!is_theme_import(".config/alacritty/themes/themes/x.toml", DIR, HOME));
}

#[test]
fn written_path_is_read_back() {
    for stem in ["dracula", "one.dark", ".x", "rosé_pine"] {
        for dir in [DIR, "/opt/themes", "rel/themes", "/home/u/", "."] {
            let p = make_theme_path(dir, stem, HOME);
            assert!(is_theme_import(&p, dir, HOME), "{dir} {stem} -> {p}");
        }
    }
}

fn strings(v: &[&str]) -> Vec<String> {
    v.iter().map(|s| s.to_string()).collect()
}

#[test]
fn theme_list_keeps_toml_files_sorted() {
    let entries = strings(&[
        "tokyo_night.toml",
        "README.md",
        "dracula.toml",
        "Nord.toml",
        ".git",
        "catppuccin_mocha.toml",
        "old.toml.bak",
        ".toml",
        "x.TOML",
    ]);
    assert_eq!(
        load_themes(&entries),
        strings(&["Nord", "catppuccin_mocha", "dracula", "tokyo_night"])
    );
}

#[test]
fn theme_list_from_paths() {
    let entries = strings(&["/t/b.toml", "/t/a.toml", "/t/a.toml", "/t/sub"]);
    assert_eq!(load_themes(&entries), strings(&["a", "a", "b"]));
}

#[test]
fn theme_list_orders_like_str() {
    let names = ["é", "e", "z", "ab", "a", "Z", "_x", "a.b"];
    let entries: Vec<String> = names.iter().map(|n| format!("{n}.toml")).collect();
    let mut expected: Vec<String> = names.iter().map(|n| n.to_string()).collect();
    expected.sort();
    assert_eq!(load_themes(&entries), expected);
}

#[test]
fn empty_theme_list() {
    assert_eq!(load_themes(&Vec::new()), Vec::<String>::new());
}
