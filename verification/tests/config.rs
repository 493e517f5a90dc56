use alacritty_theme_manager::config::{
    apply_theme, current_theme_stem, find_theme_index, load_doc, remove_theme,
};
use toml_edit::DocumentMut;

const HOME: &str = "/home/u";
const DIR: &str = "/home/u/.config/alacritty/themes/themes";

fn imports(doc: &DocumentMut) -> Option<Vec<String>> {
    let arr = doc.get("general")?.get("import")?.as_array()?;
    Some(arr.iter().map(|v| v.as_str().unwrap_or("<other>").to_string()).collect())
}

#[test]
fn unreadable_or_broken_config_is_empty() {
    assert_eq!(load_doc(None).to_string(), "");
    assert_eq!(load_doc(Some("this is = = not toml")).to_string(), "");
}

#[test]
fn config_text_is_parsed() {
    let doc = load_doc(Some("[window]\nopacity = 0.9\n"));
    assert_eq!(doc.to_string(), "[window]\nopacity = 0.9\n");
}

#[test]
fn current_theme_found() {
    let text = "[general]\nimport = [\"~/.config/alacritty/keys.toml\", \"~/.config/alacritty/themes/themes/nord.toml\"]\n";
    let doc = load_doc(Some(text));
    assert_eq!(find_theme_index(&doc, DIR, HOME), Some(1));
    assert_eq!(current_theme_stem(&doc, DIR, HOME), Some("nord".to_string()));
}

#[test]
fn current_theme_in_inline_table() {
    let text = "general = { import = [\"/home/u/.config/alacritty/themes/themes/nord.toml\"] }\n";
    let doc = load_doc(Some(text));
    assert_eq!(current_theme_stem(&doc, DIR, HOME), Some("nord".to_string()));
}

#[test]
fn no_current_theme() {
    let doc = load_doc(Some("[general]\nimport = [\"~/other/x.toml\", 3]\n"));
    assert_eq!(find_theme_index(&doc, DIR, HOME), None);
    assert_eq!(current_theme_stem(&doc, DIR, HOME), None);
    let doc = load_doc(Some("[general]\nimport = \"~/.config/alacritty/themes/themes/x.toml\"\n"));
    assert_eq!(current_theme_stem(&doc, DIR, HOME), None);
    assert_eq!(current_theme_stem(&load_doc(None), DIR, HOME), None);
}

#[test]
fn apply_to_empty_config() {
    let mut doc = load_doc(None);
    apply_theme(&mut doc, DIR, HOME, "dracula");
    assert_eq!(
        imports(&doc),
        Some(vec!["~/.config/alacritty/themes/themes/dracula.toml".to_string()])
    );
    assert_eq!(current_theme_stem(&doc, DIR, HOME), Some("dracula".to_string()));
}

#[test]
fn apply_replaces_theme_entry_only() {
    let text = "# my config\n[general]\nimport = [\"~/keys.toml\", \"~/.config/alacritty/themes/themes/nord.toml\", \"~/more.toml\"]\nlive_config_reload = true\n\n[window]\nopacity = 0.9\n";
    let mut doc = load_doc(Some(text));
    apply_theme(&mut doc, DIR, HOME, "dracula");
    assert_eq!(
        imports(&doc),
        Some(vec![
            "~/keys.toml".to_string(),
            "~/.config/alacritty/themes/themes/dracula.toml".to_string(),
            "~/more.toml".to_string(),
        ])
    );
    let out = doc.to_string();
    assert!(out.starts_with("# my config\n[general]\n"));
    assert!(out.contains("live_config_reload = true"));
    assert!(out.contains("[window]\nopacity = 0.9\n"));
}

#[test]
fn apply_adds_entry_when_none() {
    let mut doc = load_doc(Some("[general]\nimport = [\"~/keys.toml\"]\n"));
    apply_theme(&mut doc, DIR, HOME, "nord");
    assert_eq!(
        imports(&doc),
        Some(vec![
            "~/keys.toml".to_string(),
            "~/.config/alacritty/themes/themes/nord.toml".to_string(),
        ])
    );
}

#[test]
fn apply_makes_array_in_existing_table() {
    let mut doc = load_doc(Some("[general]\nlive_config_reload = true\n"));
    apply_theme(&mut doc, DIR, HOME, "nord");
    assert_eq!(
        imports(&doc),
        Some(vec!["~/.config/alacritty/themes/themes/nord.toml".to_string()])
    );
    assert!(doc.to_string().contains("live_config_reload = true"));
}

#[test]
fn apply_twice_keeps_one_entry() {
    let mut doc = load_doc(Some("[general]\nimport = [\"~/keys.toml\"]\n"));
    apply_theme(&mut doc, DIR, HOME, "nord");
    apply_theme(&mut doc, DIR, HOME, "dracula");
    assert_eq!(
        imports(&doc),
        Some(vec![
            "~/keys.toml".to_string(),
            "~/.config/alacritty/themes/themes/dracula.toml".to_string(),
        ])
    );
}

#[test]
fn apply_outside_home_writes_full_path() {
    let mut doc = load_doc(None);
    apply_theme(&mut doc, "/opt/themes", HOME, "nord");
    assert_eq!(imports(&doc), Some(vec!["/opt/themes/nord.toml".to_string()]));
    assert_eq!(current_theme_stem(&doc, "/opt/themes", HOME), Some("nord".to_string()));
}

#[test]
fn remove_takes_out_theme_entry() {
    let text = "[general]\nimport = [\"~/keys.toml\", \"~/.config/alacritty/themes/themes/nord.toml\"]\n";
    let mut doc = load_doc(Some(text));
    remove_theme(&mut doc, DIR, HOME);
    assert_eq!(imports(&doc), Some(vec!["~/keys.toml".to_string()]));
    assert_eq!(current_theme_stem(&doc, DIR, HOME), None);
}

#[test]
fn remove_leaves_inline_table_alone() {
    let text = "general = { import = [\"~/.config/alacritty/themes/themes/nord.toml\"] }\n";
    let mut doc = load_doc(Some(text));
    remove_theme(&mut doc, DIR, HOME);
    assert_eq!(doc.to_string(), text);
}

#[test]
fn remove_without_general_changes_nothing() {
    let text = "[window]\nopacity = 0.9\n";
    let mut doc = load_doc(Some(text));
    remove_theme(&mut doc, DIR, HOME);
    assert_eq!(doc.to_string(), text);
}

#[test]
fn restore_after_apply_gives_back_entries() {
    let text = "[general]\nimport = [\"~/keys.toml\"]\n";
    let mut doc = load_doc(Some(text));
    apply_theme(&mut doc, DIR, HOME, "nord");
    apply_theme(&mut doc, DIR, HOME, "dracula");
    remove_theme(&mut doc, DIR, HOME);
    assert_eq!(imports(&doc), Some(vec!["~/keys.toml".to_string()]));
}

#[test]
fn apply_to_new_document_holds_only_the_import() {
    let mut doc = load_doc(None);
    apply_theme(&mut doc, "/opt/themes", HOME, "nord");
    assert_eq!(doc.len(), 1);
    assert_eq!(doc.to_string(), "[general]\nimport = [\"/opt/themes/nord.toml\"]\n");
}

#[test]
fn apply_keeps_other_tables() {
    let text = "[general]\nimport = ['/etc/extra.toml']\n\n[font]\nsize = 12\n";
    let mut doc = load_doc(Some(text));
    apply_theme(&mut doc, "/opt/themes", HOME, "nord");
    assert_eq!(
        imports(&doc),
        Some(vec!["/etc/extra.toml".to_string(), "/opt/themes/nord.toml".to_string()])
    );
    assert_eq!(doc["font"]["size"].as_integer(), Some(12));
    remove_theme(&mut doc, "/opt/themes", HOME);
    assert_eq!(imports(&doc), Some(vec!["/etc/extra.toml".to_string()]));
    assert_eq!(doc["font"]["size"].as_integer(), Some(12));
}

#[test]
fn remove_without_theme_entry_changes_nothing() {
    let text = "[general]\nimport = [\"~/keys.toml\", 3]\nlive_config_reload = true\n";
    let mut doc = load_doc(Some(text));
    remove_theme(&mut doc, DIR, HOME);
    assert_eq!(doc.to_string(), text);
}

#[test]
fn placeholder_items_are_skipped_by_position() {
    let text = "[general]\nimport = [\"~/keys.toml\", \"~/.config/alacritty/themes/themes/nord.toml\"]\n";
    let mut doc = load_doc(Some(text));
    doc["general"]["import"][0] = toml_edit::Item::None;
    assert_eq!(find_theme_index(&doc, DIR, HOME), Some(1));
    assert_eq!(current_theme_stem(&doc, DIR, HOME), Some("nord".to_string()));
    apply_theme(&mut doc, DIR, HOME, "dracula");
    assert_eq!(current_theme_stem(&doc, DIR, HOME), Some("dracula".to_string()));
    remove_theme(&mut doc, DIR, HOME);
    assert_eq!(current_theme_stem(&doc, DIR, HOME), None);
}

#[test]
fn apply_keeps_formatting_of_other_items() {
    let text = "[general]\nimport = [ '~/keys.toml' ,  \"~/.config/alacritty/themes/themes/nord.toml\", 'x' ]\n";
    let mut doc = load_doc(Some(text));
    apply_theme(&mut doc, DIR, HOME, "dracula");
    assert_eq!(
        doc.to_string(),
        "[general]\nimport = [ '~/keys.toml' ,  \"~/.config/alacritty/themes/themes/dracula.toml\", 'x' ]\n"
    );
    remove_theme(&mut doc, DIR, HOME);
    assert_eq!(imports(&doc), Some(vec!["~/keys.toml".to_string(), "x".to_string()]));
    assert!(doc.to_string().contains("'~/keys.toml'"));
    assert!(doc.to_string().contains("'x'"));
}

#[test]
fn push_keeps_formatting_of_other_items() {
    let text = "[general]\nimport = [ '~/keys.toml' ]\n";
    let mut doc = load_doc(Some(text));
    apply_theme(&mut doc, DIR, HOME, "nord");
    let out = doc.to_string();
    assert!(out.starts_with("[general]\nimport = [ '~/keys.toml'"));
    assert_eq!(
        imports(&doc),
        Some(vec![
            "~/keys.toml".to_string(),
            "~/.config/alacritty/themes/themes/nord.toml".to_string()
        ])
    );
}
