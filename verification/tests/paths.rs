use std::path::Path;

use alacritty_theme_manager::path::{
    path_eq, path_extension, path_file_stem, path_join, path_parent, path_strip_prefix,
};

const SAMPLES: &[&str] = &[
    "", "/", "//", ".", "./", "..", "../", "a", "a/", "a//", "/a", "/a/", "//a", "a/b", "a/b/",
    "a//b", "a/./b", "a/.", "./a", "./a/", "./a/b", ".//a", "/./a", "/a/../b", "../a", "a/..",
    "~/x", "~", ".hidden", ".hidden.toml", "x.toml", "x.tar.gz", "dir/x.toml", "dir/.x", "./.",
    "/home/u/.config/alacritty/themes/themes", "/home/u/.config/alacritty/themes/themes/",
    "/home/u/.config/alacritty/themes/themes/dracula.toml", "a..b", "a.", "rosé/ünï.toml",
    "/home/u", "/home/u/", "home/u", "/home/./u/x", "..toml", "...", "a/./", "/.",
];

fn std_str(p: &Path) -> String {
    p.to_str().unwrap().to_string()
}

#[test]
fn join_matches_std() {
    for a in SAMPLES {
        for b in SAMPLES {
            assert_eq!(path_join(a, b), std_str(&Path::new(a).join(b)), "join {a:?} {b:?}");
        }
    }
}

#[test]
fn parent_matches_std() {
    for a in SAMPLES {
        assert_eq!(path_parent(a), Path::new(a).parent().map(std_str), "parent {a:?}");
    }
}

#[test]
fn strip_prefix_matches_std() {
    for a in SAMPLES {
        for b in SAMPLES {
            let expected = Path::new(a).strip_prefix(b).ok().map(std_str);
            assert_eq!(path_strip_prefix(a, b), expected, "strip_prefix {a:?} {b:?}");
        }
    }
}

#[test]
fn file_stem_and_extension_match_std() {
    for a in SAMPLES {
        let p = Path::new(a);
        let stem = p.file_stem().map(|s| s.to_str().unwrap().to_string());
        let ext = p.extension().map(|s| s.to_str().unwrap().to_string());
        assert_eq!(path_file_stem(a), stem, "file_stem {a:?}");
        assert_eq!(path_extension(a), ext, "extension {a:?}");
    }
}

#[test]
fn equality_matches_std() {
    for a in SAMPLES {
        for b in SAMPLES {
            assert_eq!(path_eq(a, b), Path::new(a) == Path::new(b), "eq {a:?} {b:?}");
        }
    }
}

#[test]
fn join_examples() {
    assert_eq!(path_join("/tmp", "etc"), "/tmp/etc");
    assert_eq!(path_join("/tmp/", "etc"), "/tmp/etc");
    assert_eq!(path_join("/tmp", "/etc"), "/etc");
    assert_eq!(path_join("", "etc"), "etc");
}

#[test]
fn parent_examples() {
    assert_eq!(path_parent("/a/b/"), Some("/a".to_string()));
    assert_eq!(path_parent("./a"), Some(".".to_string()));
    assert_eq!(path_parent("a"), Some("".to_string()));
    assert_eq!(path_parent("/"), None);
    assert_eq!(path_parent(""), None);
}

#[test]
fn strip_prefix_examples() {
    assert_eq!(path_strip_prefix("/home/u/x/y.toml", "/home/u"), Some("x/y.toml".to_string()));
    assert_eq!(path_strip_prefix("/home/u/x/", "/home/u/"), Some("x".to_string()));
    assert_eq!(path_strip_prefix("/home/u", "/home/u"), Some("".to_string()));
    assert_eq!(path_strip_prefix("/home/user", "/home/u"), None);
    assert_eq!(path_strip_prefix("/etc/x", "/home/u"), None);
}

#[test]
fn stem_examples() {
    assert_eq!(path_file_stem("/t/dracula.toml"), Some("dracula".to_string()));
    assert_eq!(path_file_stem("/t/.hidden"), Some(".hidden".to_string()));
    assert_eq!(path_file_stem("/t/x.tar.gz"), Some("x.tar".to_string()));
    assert_eq!(path_file_stem("/t/.."), None);
    assert_eq!(path_extension("/t/x.tar.gz"), Some("gz".to_string()));
    assert_eq!(path_extension("/t/.hidden"), None);
    assert_eq!(path_extension("/t/noext"), None);
}
