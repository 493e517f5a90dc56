//! Where the configuration file and the themes directory are.
//!
//! The order is: the program's own variable (`ATM_CONFIG`, `ATM_THEMES_DIR`),
//! then the first candidate that exists, then the default under the
//! configuration home (`$XDG_CONFIG_HOME`, else `~/.config`). Reading the
//! environment and asking the file system are left to the caller, which hands
//! their answers in.
use vstd::prelude::*;

use crate::path::{join, join_chars};
use crate::text::{chars_of, string_of};
use crate::themes::strings_of;

verus! {

/// The configuration home: `$XDG_CONFIG_HOME` where it is set, else
/// `.config` under the home directory.
pub open spec fn config_home_spec(xdg: Option<Seq<char>>, home: Seq<char>) -> Seq<char> {
    match xdg {
        Some(v) => v,
        None => join(home, ".config"@),
    }
}

/// `Path::new(base).join(rel)`, as a string.
fn join_str(base: &str, rel: &str) -> (r: String)
    ensures
        r@ == join(base@, rel@),
{
    string_of(&join_chars(&chars_of(base), &chars_of(rel)))
}

/// The configuration home, from the value of `XDG_CONFIG_HOME` (where it is
/// set and valid Unicode) and the home directory.
pub fn xdg_config_home(xdg: Option<&str>, home: &str) -> (r: String)
    ensures
        r@ == config_home_spec(
            match xdg {
                Some(v) => Some(v@),
                None => None,
            },
            home@,
        ),
{
    match xdg {
        Some(v) => string_of(&chars_of(v)),
        None => join_str(home, ".config"),
    }
}

/// `alacritty/alacritty.toml` under the configuration home.
pub open spec fn default_config_spec(config_home: Seq<char>) -> Seq<char> {
    join(config_home, "alacritty/alacritty.toml"@)
}

/// `alacritty/themes/themes` under the configuration home.
pub open spec fn default_themes_spec(config_home: Seq<char>) -> Seq<char> {
    join(config_home, "alacritty/themes/themes"@)
}

/// The configuration file under macOS's `Library/Application Support`.
pub open spec fn macos_config_spec(home: Seq<char>) -> Seq<char> {
    join(home, "Library/Application Support/alacritty/alacritty.toml"@)
}

/// The default configuration file: `alacritty/alacritty.toml` under the
/// configuration home.
pub fn default_config_path(config_home: &str) -> (r: String)
    ensures
        r@ == default_config_spec(config_home@),
{
    join_str(config_home, "alacritty/alacritty.toml")
}

/// The default themes directory: `alacritty/themes/themes` under the
/// configuration home.
pub fn default_themes_dir(config_home: &str) -> (r: String)
    ensures
        r@ == default_themes_spec(config_home@),
{
    join_str(config_home, "alacritty/themes/themes")
}

/// The places where the configuration file is looked for, in order: the
/// default one, then, on macOS, the one under `Library/Application Support`.
pub fn config_candidates(config_home: &str, home: &str, macos: bool) -> (r: Vec<String>)
    ensures
        strings_of(r@) == if macos {
            seq![default_config_spec(config_home@), macos_config_spec(home@)]
        } else {
            seq![default_config_spec(config_home@)]
        },
{
    let mut v: Vec<String> = Vec::new();
    v.push(default_config_path(config_home));
    if macos {
        v.push(join_str(home, "Library/Application Support/alacritty/alacritty.toml"));
    }
    proof {
        if macos {
            assert(strings_of(v@) =~= seq![default_config_spec(config_home@), macos_config_spec(home@)]);
        } else {
            assert(strings_of(v@) =~= seq![default_config_spec(config_home@)]);
        }
    }
    v
}

/// The places where the themes directory is looked for, in order.
pub fn themes_candidates(config_home: &str) -> (r: Vec<String>)
    ensures
        strings_of(r@) == seq![default_themes_spec(config_home@)],
{
    let mut v: Vec<String> = Vec::new();
    v.push(default_themes_dir(config_home));
    assert(strings_of(v@) =~= seq![default_themes_spec(config_home@)]);
    v
}

/// The first candidate from index `i` on that exists; `exists[i]` tells
/// whether `cands[i]` does, and a candidate without an answer counts as
/// missing.
pub open spec fn first_existing_from(cands: Seq<Seq<char>>, exists: Seq<bool>, i: int) -> Option<
    Seq<char>,
>
    decreases cands.len() - i,
{
    if i < 0 || i >= cands.len() {
        None
    } else if i < exists.len() && exists[i] {
        Some(cands[i])
    } else {
        first_existing_from(cands, exists, i + 1)
    }
}

/// The first candidate that exists.
pub open spec fn first_existing(cands: Seq<Seq<char>>, exists: Seq<bool>) -> Option<Seq<char>> {
    first_existing_from(cands, exists, 0)
}

/// The path chosen: the override where there is one, else the first
/// candidate that exists, else the fallback.
pub open spec fn resolved_spec(
    env_override: Option<Seq<char>>,
    cands: Seq<Seq<char>>,
    exists: Seq<bool>,
    fallback: Seq<char>,
) -> Seq<char> {
    match env_override {
        Some(p) => p,
        None => match first_existing(cands, exists) {
            Some(c) => c,
            None => fallback,
        },
    }
}

/// The override, else the first existing candidate, else the fallback.
fn pick_path(
    env_override: Option<&str>,
    cands: &Vec<String>,
    exists: &Vec<bool>,
    fallback: String,
) -> (r: String)
    ensures
        r@ == resolved_spec(
            match env_override {
                Some(p) => Some(p@),
                None => None,
            },
            strings_of(cands@),
            exists@,
            fallback@,
        ),
{
    match env_override {
        Some(p) => string_of(&chars_of(p)),
        None => {
            let ghost cs = strings_of(cands@);
            let mut i: usize = 0;
            while i < cands.len()
                invariant
                    i <= cands@.len(),
                    env_override is None,
                    cs == strings_of(cands@),
                    first_existing(cs, exists@) == first_existing_from(cs, exists@, i as int),
                decreases cands@.len() - i,
            {
                if i < exists.len() && exists[i] {
                    let found = string_of(&chars_of(cands[i].as_str()));
                    return found;
                }
                i = i + 1;
            }
            fallback
        },
    }
}

/// The configuration file: `ATM_CONFIG` where it is set, else the first of
/// `candidates` that exists (`exists[i]` answers for `candidates[i]`), else
/// the default under the configuration home.
pub fn resolve_config_path(
    env_override: Option<&str>,
    candidates: &Vec<String>,
    exists: &Vec<bool>,
    config_home: &str,
) -> (r: String)
    ensures
        r@ == resolved_spec(
            match env_override {
                Some(p) => Some(p@),
                None => None,
            },
            strings_of(candidates@),
            exists@,
            default_config_spec(config_home@),
        ),
{
    pick_path(env_override, candidates, exists, default_config_path(config_home))
}

/// The themes directory: `ATM_THEMES_DIR` where it is set, else the first of
/// `candidates` that exists, else the default under the configuration home.
pub fn resolve_themes_dir(
    env_override: Option<&str>,
    candidates: &Vec<String>,
    exists: &Vec<bool>,
    config_home: &str,
) -> (r: String)
    ensures
        r@ == resolved_spec(
            match env_override {
                Some(p) => Some(p@),
                None => None,
            },
            strings_of(candidates@),
            exists@,
            default_themes_spec(config_home@),
        ),
{
    pick_path(env_override, candidates, exists, default_themes_dir(config_home))
}

} // verus!
