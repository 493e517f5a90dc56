//! Reading and editing the theme entry of the Alacritty configuration.
//!
//! The theme lives in the `[general].import` array: the first entry that
//! names a file directly inside the themes directory is the theme entry.
//! Editing replaces, adds or removes that one entry and leaves the other
//! entries as they were. Writing the document back to disk is left to the
//! caller.
use vstd::prelude::*;

use toml_edit::DocumentMut;

use crate::path::file_stem;
use crate::path::path_file_stem;
use crate::themes::{is_theme_import, make_theme_path, theme_import_spec, theme_path_spec};
use crate::toml_doc::{
    doc_rest, doc_text, import_entries, import_item_texts, import_layout, insert_general_table,
    new_document, opt_strings, parse_document, parsed_toml, push_import, read_imports, read_layout,
    remove_import, replace_import, set_import_array, GeneralShape, ImportLayout,
};

verus! {

/// The entry is a string that names a file inside the themes directory.
pub open spec fn is_theme_entry(e: Option<Seq<char>>, themes_dir: Seq<char>, home: Seq<char>) -> bool {
    match e {
        Some(s) => theme_import_spec(s, themes_dir, home),
        None => false,
    }
}

/// The first theme entry at index `i` or later.
pub open spec fn theme_index_from(
    es: Seq<Option<Seq<char>>>,
    themes_dir: Seq<char>,
    home: Seq<char>,
    i: int,
) -> Option<int>
    decreases es.len() - i,
{
    if i < 0 || i >= es.len() {
        None
    } else if is_theme_entry(es[i], themes_dir, home) {
        Some(i)
    } else {
        theme_index_from(es, themes_dir, home, i + 1)
    }
}

/// The index of the first theme entry.
pub open spec fn theme_index(es: Seq<Option<Seq<char>>>, themes_dir: Seq<char>, home: Seq<char>) -> Option<int> {
    theme_index_from(es, themes_dir, home, 0)
}

/// The stem of the theme entry's file, where there is a theme entry.
pub open spec fn theme_stem(es: Seq<Option<Seq<char>>>, themes_dir: Seq<char>, home: Seq<char>) -> Option<
    Seq<char>,
> {
    match theme_index(es, themes_dir, home) {
        Some(i) => file_stem(es[i]->0),
        None => None,
    }
}

/// The import entries after the theme `path` has been applied: where there
/// is no import array, a new one with `path` alone; else the theme entry is
/// replaced by `path`, or `path` is added at the end where there is none.
pub open spec fn applied_entries(
    l: ImportLayout,
    es: Seq<Option<Seq<char>>>,
    path: Seq<char>,
    themes_dir: Seq<char>,
    home: Seq<char>,
) -> Seq<Option<Seq<char>>> {
    if !l.has_array {
        seq![Some(path)]
    } else {
        match theme_index(es, themes_dir, home) {
            Some(i) => es.update(i, Some(path)),
            None => es.push(Some(path)),
        }
    }
}

/// The import entries after the theme entry has been removed: only a
/// `[general]` table's import array is edited.
pub open spec fn removed_entries(
    l: ImportLayout,
    es: Seq<Option<Seq<char>>>,
    themes_dir: Seq<char>,
    home: Seq<char>,
) -> Seq<Option<Seq<char>>> {
    if l.general == GeneralShape::Table && l.has_array {
        match theme_index(es, themes_dir, home) {
            Some(i) => es.remove(i),
            None => es,
        }
    } else {
        es
    }
}

/// How the items of the import array print after applying a theme, against
/// `before`, how they printed: where there was an array, each item but the
/// theme entry that is replaced prints as before, and where there was no
/// theme entry the one new item comes at the end; else the array is a new one
/// with one item.
pub open spec fn applied_items(
    l: ImportLayout,
    es: Seq<Option<Seq<char>>>,
    before: Seq<Option<Seq<char>>>,
    after: Seq<Option<Seq<char>>>,
    themes_dir: Seq<char>,
    home: Seq<char>,
) -> bool {
    if l.has_array {
        match theme_index(es, themes_dir, home) {
            Some(i) => {
                &&& after.len() == before.len()
                &&& forall|j: int| 0 <= j < before.len() && j != i ==> after[j] == before[j]
            },
            None => {
                &&& after.len() == before.len() + 1
                &&& after.subrange(0, before.len() as int) == before
            },
        }
    } else {
        after.len() == 1
    }
}

/// How the items of the import array print after the theme entry is taken
/// out: those of `before` without the theme entry's item, where there is one.
pub open spec fn removed_items(
    l: ImportLayout,
    es: Seq<Option<Seq<char>>>,
    before: Seq<Option<Seq<char>>>,
    themes_dir: Seq<char>,
    home: Seq<char>,
) -> Seq<Option<Seq<char>>> {
    if l.general == GeneralShape::Table && l.has_array {
        match theme_index(es, themes_dir, home) {
            Some(i) => before.remove(i),
            None => before,
        }
    } else {
        before
    }
}

/// Removing the theme entry edits the document: `general` is a table with an
/// import array that holds a theme entry.
pub open spec fn removes_entry(
    l: ImportLayout,
    es: Seq<Option<Seq<char>>>,
    themes_dir: Seq<char>,
    home: Seq<char>,
) -> bool {
    l.general == GeneralShape::Table && l.has_array && theme_index(es, themes_dir, home) is Some
}

/// A theme can be applied: `general` is missing or a `[general]` table.
pub open spec fn editable(l: ImportLayout) -> bool {
    l.general == GeneralShape::Missing || l.general == GeneralShape::Table
}

/// The text can be read as a configuration: there is none (the file could
/// not be read, so a new one is made), or it is a TOML document. A text that
/// is not TOML is never to be written over.
pub open spec fn text_is_config(text: Option<Seq<char>>) -> bool {
    match text {
        Some(t) => parsed_toml(t) is Some,
        None => true,
    }
}

/// What the document read from a configuration's text holds: that of the
/// parsed text where it is TOML, else nothing.
pub open spec fn loaded(text: Option<Seq<char>>) -> (ImportLayout, Seq<Option<Seq<char>>>, Seq<char>) {
    let empty = (
        ImportLayout { general: GeneralShape::Missing, has_array: false },
        Seq::<Option<Seq<char>>>::empty(),
        Seq::<char>::empty(),
    );
    match text {
        Some(t) => match parsed_toml(t) {
            Some(v) => v,
            None => empty,
        },
        None => empty,
    }
}

/// The document read from the configuration's text: the empty document
/// (which prints as nothing) where there is no text (the file could not be
/// read) or the text is not TOML.
pub fn load_doc(text: Option<&str>) -> (d: DocumentMut)
    ensures
        (import_layout(d), import_entries(d), doc_rest(d)) == loaded(
            match text {
                Some(t) => Some(t@),
                None => None,
            },
        ),
        !text_is_config(
            match text {
                Some(t) => Some(t@),
                None => None,
            },
        ) || text is None ==> doc_text(d) == Seq::<char>::empty(),
{
    match text {
        Some(t) => match parse_document(t) {
            Some(d) => d,
            None => new_document(),
        },
        None => new_document(),
    }
}

/// Whether `text` is a TOML document.
pub fn is_toml(text: &str) -> (b: bool)
    ensures
        b == (parsed_toml(text@) is Some),
{
    parse_document(text).is_some()
}

/// The index of the first theme entry among `es`.
fn first_theme_entry(es: &Vec<Option<String>>, themes_dir: &str, home: &str) -> (r: Option<usize>)
    ensures
        match r {
            Some(i) => i < es@.len() && theme_index(opt_strings(es@), themes_dir@, home@) == Some(
                i as int,
            ),
            None => theme_index(opt_strings(es@), themes_dir@, home@) is None,
        },
{
    let ghost v = opt_strings(es@);
    let mut i: usize = 0;
    while i < es.len()
        invariant
            i <= es@.len(),
            v == opt_strings(es@),
            theme_index(v, themes_dir@, home@) == theme_index_from(v, themes_dir@, home@, i as int),
        decreases es@.len() - i,
    {
        let hit = match &es[i] {
            Some(s) => is_theme_import(s.as_str(), themes_dir, home),
            None => false,
        };
        if hit {
            return Some(i);
        }
        i = i + 1;
    }
    None
}

/// The index, within `[general].import`, of the entry that names a file
/// inside `themes_dir` (`~/` standing for `home`), if any.
pub fn find_theme_index(doc: &DocumentMut, themes_dir: &str, home: &str) -> (r: Option<usize>)
    ensures
        match r {
            Some(i) => i < import_entries(*doc).len() && import_entries(*doc)[i as int] is Some
                && theme_index(
                import_entries(*doc),
                themes_dir@,
                home@,
            ) == Some(i as int),
            None => theme_index(import_entries(*doc), themes_dir@, home@) is None,
        },
{
    let es = read_imports(doc);
    let r = first_theme_entry(&es, themes_dir, home);
    proof {
        lemma_theme_index_in_range(opt_strings(es@), themes_dir@, home@, 0);
    }
    r
}

/// The theme the configuration uses now: the file stem of its theme entry.
pub fn current_theme_stem(doc: &DocumentMut, themes_dir: &str, home: &str) -> (r: Option<String>)
    ensures
        match r {
            Some(s) => theme_stem(import_entries(*doc), themes_dir@, home@) == Some(s@),
            None => theme_stem(import_entries(*doc), themes_dir@, home@) is None,
        },
{
    let es = read_imports(doc);
    let ghost v = opt_strings(es@);
    match first_theme_entry(&es, themes_dir, home) {
        Some(i) => match &es[i] {
            Some(p) => {
                assert(v[i as int] == Some(p@));
                let r = path_file_stem(p.as_str());
                assert(theme_stem(v, themes_dir@, home@) == file_stem(p@));
                r
            },
            None => {
                proof {
                    lemma_theme_index_in_range(v, themes_dir@, home@, 0);
                }
                assert(v[i as int] is None);
                None
            },
        },
        None => None,
    }
}

/// Points the configuration at the theme `stem` in `themes_dir`: the theme
/// entry of `[general].import` becomes the theme's path, an entry is added
/// where there is none, and the table and the array are made where missing.
/// The other entries print as they did, and everything else the document
/// holds stays as it was.
pub fn apply_theme(doc: &mut DocumentMut, themes_dir: &str, home: &str, stem: &str)
    requires
        editable(import_layout(*old(doc))),
    ensures
        import_layout(*final(doc)) == (ImportLayout { general: GeneralShape::Table, has_array: true }),
        import_entries(*final(doc)) == applied_entries(
            import_layout(*old(doc)),
            import_entries(*old(doc)),
            theme_path_spec(themes_dir@, stem@, home@),
            themes_dir@,
            home@,
        ),
        applied_items(
            import_layout(*old(doc)),
            import_entries(*old(doc)),
            import_item_texts(*old(doc)),
            import_item_texts(*final(doc)),
            themes_dir@,
            home@,
        ),
        doc_rest(*final(doc)) == doc_rest(*old(doc)),
{
    let theme_path = make_theme_path(themes_dir, stem, home);
    let layout = read_layout(doc);
    if layout.general == GeneralShape::Missing {
        insert_general_table(doc);
    }
    let layout2 = read_layout(doc);
    if layout2.has_array {
        match find_theme_index(doc, themes_dir, home) {
            Some(i) => replace_import(doc, i, theme_path.as_str()),
            None => push_import(doc, theme_path.as_str()),
        }
    } else {
        set_import_array(doc, theme_path.as_str());
    }
}

/// Takes the theme entry out of `[general].import`, where `general` is a
/// table holding an import array with such an entry; otherwise the document
/// stays as it is. The other entries print as they did, and everything else
/// the document holds stays as it was.
pub fn remove_theme(doc: &mut DocumentMut, themes_dir: &str, home: &str)
    ensures
        import_layout(*final(doc)) == import_layout(*old(doc)),
        import_item_texts(*final(doc)) == removed_items(
            import_layout(*old(doc)),
            import_entries(*old(doc)),
            import_item_texts(*old(doc)),
            themes_dir@,
            home@,
        ),
        doc_rest(*final(doc)) == doc_rest(*old(doc)),
        !removes_entry(import_layout(*old(doc)), import_entries(*old(doc)), themes_dir@, home@)
            ==> *final(doc) == *old(doc),
        import_entries(*final(doc)) == removed_entries(
            import_layout(*old(doc)),
            import_entries(*old(doc)),
            themes_dir@,
            home@,
        ),
{
    let layout = read_layout(doc);
    if layout.general == GeneralShape::Table && layout.has_array {
        match find_theme_index(doc, themes_dir, home) {
            Some(i) => remove_import(doc, i),
            None => {},
        }
    }
}

/// The theme index found from `i` on lies in the entries and is a theme entry.
pub proof fn lemma_theme_index_in_range(
    es: Seq<Option<Seq<char>>>,
    themes_dir: Seq<char>,
    home: Seq<char>,
    i: int,
)
    requires
        0 <= i,
    ensures
        theme_index_from(es, themes_dir, home, i) matches Some(k) ==> i <= k < es.len()
            && is_theme_entry(es[k], themes_dir, home),
    decreases es.len() - i,
{
    if i < es.len() && !is_theme_entry(es[i], themes_dir, home) {
        lemma_theme_index_in_range(es, themes_dir, home, i + 1);
    }
}

} // verus!
