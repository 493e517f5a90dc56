//! Theme files and the import entries that point at them.
use vstd::prelude::*;

use crate::order::{sort_names, sorted};
use crate::path::{
    extension, file_stem, join, join_chars, parent_is, parent_is_chars, path_extension, path_file_stem,
    strip_prefix, strip_prefix_chars,
};
use crate::text::{append_chars, chars_of, copy_chars, string_of};

verus! {

/// `~/rest` stands for `rest` under the home directory; any other entry is
/// taken as it is.
pub open spec fn expand_home(entry: Seq<char>, home: Seq<char>) -> Seq<char> {
    if entry.len() >= 2 && entry[0] == '~' && entry[1] == '/' {
        join(home, entry.subrange(2, entry.len() as int))
    } else {
        entry
    }
}

/// An import entry names a file directly inside the themes directory.
pub open spec fn theme_import_spec(entry: Seq<char>, themes_dir: Seq<char>, home: Seq<char>) -> bool {
    parent_is(expand_home(entry, home), themes_dir)
}

fn expand_home_chars(entry: &Vec<char>, home: &Vec<char>) -> (r: Vec<char>)
    ensures
        r@ == expand_home(entry@, home@),
{
    if entry.len() >= 2 && entry[0] == '~' && entry[1] == '/' {
        let mut rest: Vec<char> = Vec::new();
        let mut i: usize = 2;
        while i < entry.len()
            invariant
                2 <= i <= entry@.len(),
                rest@ == entry@.subrange(2, i as int),
            decreases entry@.len() - i,
        {
            rest.push(entry[i]);
            i = i + 1;
        }
        join_chars(home, &rest)
    } else {
        copy_chars(entry)
    }
}

/// Whether the import entry `entry` refers to a file inside `themes_dir`;
/// a leading `~/` in the entry stands for the home directory `home`.
pub fn is_theme_import(entry: &str, themes_dir: &str, home: &str) -> (r: bool)
    ensures
        r == theme_import_spec(entry@, themes_dir@, home@),
{
    let e = chars_of(entry);
    let d = chars_of(themes_dir);
    let h = chars_of(home);
    let x = expand_home_chars(&e, &h);
    parent_is_chars(&x, &d)
}

/// The file name of the theme `stem`: `stem.toml`.
pub open spec fn theme_file_name(stem: Seq<char>) -> Seq<char> {
    stem + seq!['.', 't', 'o', 'm', 'l']
}

/// The path written into the configuration for the theme `stem`: the theme's
/// file in `themes_dir`, written as `~/...` when it lies under `home`.
pub open spec fn theme_path_spec(themes_dir: Seq<char>, stem: Seq<char>, home: Seq<char>) -> Seq<char> {
    let full = join(themes_dir, theme_file_name(stem));
    match strip_prefix(full, home) {
        Some(rel) => seq!['~', '/'] + rel,
        None => full,
    }
}

/// Builds the path string written into `alacritty.toml` for the theme `stem`.
/// Uses `~/...` when the themes directory is under the home directory `home`.
pub fn make_theme_path(themes_dir: &str, stem: &str, home: &str) -> (r: String)
    ensures
        r@ == theme_path_spec(themes_dir@, stem@, home@),
{
    let mut name = chars_of(stem);
    name.push('.');
    name.push('t');
    name.push('o');
    name.push('m');
    name.push('l');
    assert(name@ =~= theme_file_name(stem@));
    let full = join_chars(&chars_of(themes_dir), &name);
    match strip_prefix_chars(&full, &chars_of(home)) {
        Some(rel) => {
            let mut r: Vec<char> = Vec::new();
            r.push('~');
            r.push('/');
            append_chars(&mut r, &rel);
            assert(r@ =~= seq!['~', '/'] + rel@);
            string_of(&r)
        },
        None => string_of(&full),
    }
}

/// The theme a directory entry holds: the stem of a file whose extension is
/// `toml`.
pub open spec fn theme_of_entry(entry: Seq<char>) -> Option<Seq<char>> {
    if extension(entry) == Some(seq!['t', 'o', 'm', 'l']) {
        file_stem(entry)
    } else {
        None
    }
}

/// The themes that the entries hold, in the order of the entries.
pub open spec fn themes_in(entries: Seq<Seq<char>>) -> Seq<Seq<char>>
    decreases entries.len(),
{
    if entries.len() == 0 {
        Seq::<Seq<char>>::empty()
    } else {
        let t = themes_in(entries.drop_last());
        match theme_of_entry(entries.last()) {
            Some(s) => t.push(s),
            None => t,
        }
    }
}

pub open spec fn strings_of(v: Seq<String>) -> Seq<Seq<char>> {
    v.map_values(|s: String| s@)
}

fn theme_of(entry: &String) -> (r: Option<Vec<char>>)
    ensures
        match r {
            Some(x) => theme_of_entry(entry@) == Some(x@),
            None => theme_of_entry(entry@) is None,
        },
{
    match path_extension(entry.as_str()) {
        Some(ext) => {
            let e = chars_of(ext.as_str());
            if e.len() == 4 && e[0] == 't' && e[1] == 'o' && e[2] == 'm' && e[3] == 'l' {
                assert(e@ =~= seq!['t', 'o', 'm', 'l']);
                match path_file_stem(entry.as_str()) {
                    Some(st) => Some(chars_of(st.as_str())),
                    None => None,
                }
            } else {
                assert(e@ != seq!['t', 'o', 'm', 'l']) by {
                    if e@.len() == 4 {
                        assert(e@[0] != 't' || e@[1] != 'o' || e@[2] != 'm' || e@[3] != 'l');
                    }
                }
                None
            }
        },
        None => None,
    }
}

/// The theme list of a themes directory whose entries are `entries` (their
/// paths or their file names): the stems of the `.toml` files, sorted.
pub fn load_themes(entries: &Vec<String>) -> (r: Vec<String>)
    ensures
        sorted(strings_of(r@)),
        strings_of(r@).to_multiset() == themes_in(strings_of(entries@)).to_multiset(),
{
    let ghost es = strings_of(entries@);
    let mut found: Vec<Vec<char>> = Vec::new();
    let mut i: usize = 0;
    while i < entries.len()
        invariant
            i <= entries@.len(),
            es == strings_of(entries@),
            found@.map_values(|x: Vec<char>| x@) == themes_in(es.subrange(0, i as int)),
        decreases entries@.len() - i,
    {
        assert(es.subrange(0, i + 1).drop_last() =~= es.subrange(0, i as int));
        assert(es.subrange(0, i + 1).last() == entries@[i as int]@);
        let ghost before = found@;
        match theme_of(&entries[i]) {
            Some(t) => {
                found.push(t);
                assert(found@.map_values(|x: Vec<char>| x@) =~= before.map_values(|x: Vec<char>| x@).push(t@));
            },
            None => {},
        }
        i = i + 1;
    }
    assert(es.subrange(0, es.len() as int) =~= es);
    let sorted_found = sort_names(found);
    let mut r: Vec<String> = Vec::new();
    let mut j: usize = 0;
    while j < sorted_found.len()
        invariant
            j <= sorted_found@.len(),
            strings_of(r@) == sorted_found@.map_values(|x: Vec<char>| x@).subrange(0, j as int),
        decreases sorted_found@.len() - j,
    {
        let s = string_of(&sorted_found[j]);
        let ghost before = r@;
        r.push(s);
        assert(strings_of(r@) =~= strings_of(before).push(sorted_found@[j as int]@));
        assert(strings_of(r@) =~= sorted_found@.map_values(|x: Vec<char>| x@).subrange(0, j + 1));
        j = j + 1;
    }
    assert(strings_of(r@) =~= sorted_found@.map_values(|x: Vec<char>| x@));
    r
}

} // verus!
