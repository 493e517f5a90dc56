//! The parts of `toml_edit` that the library uses, with what they do to a
//! document.
//!
//! A `DocumentMut` is seen through these names: `import_layout`, which says
//! what the `general` key holds and whether `general.import` is an array;
//! `import_entries`, the strings of that array; `import_item_texts`, how each
//! of its items prints; and `doc_rest`, everything else the document holds.
//! The edits below change `general.import` (and make an empty `general`
//! table where there is none), keep `doc_rest` as it is, and leave each item
//! of the array that they do not replace or remove printing as before.
use vstd::prelude::*;

use toml_edit::DocumentMut;

verus! {

#[verifier::external_type_specification]
#[verifier::external_body]
pub struct ExDocumentMut(toml_edit::DocumentMut);

/// What the top-level `general` key of a document holds.
#[derive(PartialEq, Eq, Structural, Clone, Copy)]
pub enum GeneralShape {
    /// There is no `general` key.
    Missing,
    /// `general` is a table (`[general]`).
    Table,
    /// `general` is an inline table (`general = { ... }`).
    InlineTable,
    /// `general` is some other value or an array of tables.
    Other,
}

/// The shape of a document where the theme import lives.
#[derive(PartialEq, Eq, Structural, Clone, Copy)]
pub struct ImportLayout {
    pub general: GeneralShape,
    /// `general.import` is an array value.
    pub has_array: bool,
}

/// The items of the `general.import` array of a document, by their position
/// in the array (`Array::get(i)` for `i < Array::len()`): the text of each
/// string value, `None` for a value of another kind or an item that is not a
/// value. Empty when there is no such array.
pub uninterp spec fn import_entries(doc: DocumentMut) -> Seq<Option<Seq<char>>>;

/// What `general` holds in a document and whether `general.import` is an
/// array.
pub uninterp spec fn import_layout(doc: DocumentMut) -> ImportLayout;

/// How each item of the `general.import` array of a document prints, by
/// position: what `Value`'s `Display` prints for a value item (its quoting,
/// spacing and comments included), `None` for an item that is not a value.
/// Empty when there is no such array.
pub uninterp spec fn import_item_texts(doc: DocumentMut) -> Seq<Option<Seq<char>>>;

/// Everything a document holds but its import array: the text the document
/// prints once the `import` key is taken out of `general`, and `general`
/// too where it is then an empty table. Keys, tables, comments and formatting
/// elsewhere all show in it.
pub uninterp spec fn doc_rest(doc: DocumentMut) -> Seq<char>;

/// The text of a document, as its `Display` prints it.
pub uninterp spec fn doc_text(doc: DocumentMut) -> Seq<char>;

/// What parsing a text as TOML gives: `None` where it is not a TOML
/// document, else the layout, the import entries and the rest of the
/// document.
pub uninterp spec fn parsed_toml(text: Seq<char>) -> Option<
    (ImportLayout, Seq<Option<Seq<char>>>, Seq<char>),
>;

pub open spec fn opt_strings(v: Seq<Option<String>>) -> Seq<Option<Seq<char>>> {
    v.map_values(
        |o: Option<String>|
            match o {
                Some(s) => Some(s@),
                None => None,
            },
    )
}

/// `general` is a table or an inline table: the only shapes under which an
/// `import` key can be found.
pub open spec fn general_is_table_like(l: ImportLayout) -> bool {
    l.general == GeneralShape::Table || l.general == GeneralShape::InlineTable
}

/// `DocumentMut::new()`: a document with an empty root table.
#[verifier::external_body]
pub fn new_document() -> (d: DocumentMut)
    ensures
        import_layout(d) == (ImportLayout { general: GeneralShape::Missing, has_array: false }),
        import_entries(d) == Seq::<Option<Seq<char>>>::empty(),
        import_item_texts(d) == Seq::<Option<Seq<char>>>::empty(),
        doc_rest(d) == Seq::<char>::empty(),
        doc_text(d) == Seq::<char>::empty(),
{
    DocumentMut::new()
}

/// `text.parse::<DocumentMut>()`: `None` where `text` is not a TOML
/// document.
#[verifier::external_body]
pub fn parse_document(text: &str) -> (r: Option<DocumentMut>)
    ensures
        r is Some <==> parsed_toml(text@) is Some,
        r matches Some(d) ==> parsed_toml(text@) == Some(
            (import_layout(d), import_entries(d), doc_rest(d)),
        ),
{
    text.parse::<DocumentMut>().ok()
}

/// What `doc.get("general")` holds, and whether
/// `doc.get("general").and_then(|g| g.get("import")).and_then(|i| i.as_array())`
/// is `Some`. `Item::get` with a key finds nothing unless the item is a table
/// or an inline table.
#[verifier::external_body]
pub fn read_layout(doc: &DocumentMut) -> (r: ImportLayout)
    ensures
        r == import_layout(*doc),
        r.has_array ==> general_is_table_like(r),
        !r.has_array ==> import_entries(*doc) == Seq::<Option<Seq<char>>>::empty(),
        !r.has_array ==> import_item_texts(*doc) == Seq::<Option<Seq<char>>>::empty(),
{
    let general = match doc.get("general") {
        None => GeneralShape::Missing,
        Some(toml_edit::Item::Table(_)) => GeneralShape::Table,
        Some(toml_edit::Item::Value(toml_edit::Value::InlineTable(_))) => GeneralShape::InlineTable,
        Some(_) => GeneralShape::Other,
    };
    let has_array = doc.get("general").and_then(|g| g.get("import")).and_then(|i| i.as_array()).is_some();
    ImportLayout { general, has_array }
}

/// The items of `general.import` by position, each read with `Array::get`
/// and `Value::as_str`; empty where `general.import` is not an array.
#[verifier::external_body]
pub fn read_imports(doc: &DocumentMut) -> (r: Vec<Option<String>>)
    ensures
        opt_strings(r@) == import_entries(*doc),
{
    match doc.get("general").and_then(|g| g.get("import")).and_then(|i| i.as_array()) {
        Some(a) => (0..a.len()).map(|i| a.get(i).and_then(|v| v.as_str()).map(|s| s.to_string())).collect(),
        None => Vec::new(),
    }
}

/// `doc.to_string()`: the text of the document. Where there is no `general`
/// key, nothing is taken out for `doc_rest`, so the two are the same text.
#[verifier::external_body]
pub fn document_text(doc: &DocumentMut) -> (r: String)
    ensures
        r@ == doc_text(*doc),
        import_layout(*doc).general == GeneralShape::Missing ==> r@ == doc_rest(*doc),
{
    doc.to_string()
}

/// `doc["general"] = toml_edit::table()` where there is no `general` key:
/// `general` becomes an empty table.
#[verifier::external_body]
pub fn insert_general_table(doc: &mut DocumentMut)
    requires
        import_layout(*old(doc)).general == GeneralShape::Missing,
    ensures
        import_layout(*final(doc)) == (ImportLayout { general: GeneralShape::Table, has_array: false }),
        import_entries(*final(doc)) == Seq::<Option<Seq<char>>>::empty(),
        import_item_texts(*final(doc)) == Seq::<Option<Seq<char>>>::empty(),
        doc_rest(*final(doc)) == doc_rest(*old(doc)),
{
    doc["general"] = toml_edit::table();
}

/// `Array::replace(index, path)` on the `general.import` array of a
/// `[general]` table: the string at `index` becomes the string `path`, with
/// the old value's formatting; no other item of the array changes.
#[verifier::external_body]
pub fn replace_import(doc: &mut DocumentMut, index: usize, path: &str)
    requires
        import_layout(*old(doc)).general == GeneralShape::Table,
        import_layout(*old(doc)).has_array,
        index < import_entries(*old(doc)).len(),
        import_entries(*old(doc))[index as int] is Some,
    ensures
        import_layout(*final(doc)) == import_layout(*old(doc)),
        import_entries(*final(doc)) == import_entries(*old(doc)).update(index as int, Some(path@)),
        import_item_texts(*final(doc)).len() == import_item_texts(*old(doc)).len(),
        import_item_texts(*final(doc))[index as int] is Some,
        forall|j: int|
            0 <= j < import_item_texts(*old(doc)).len() && j != index ==> import_item_texts(
                *final(doc),
            )[j] == import_item_texts(*old(doc))[j],
        doc_rest(*final(doc)) == doc_rest(*old(doc)),
{
    let general = doc.get_mut("general").and_then(|g| g.as_table_mut());
    if let Some(a) = general.and_then(|t| t.get_mut("import")).and_then(|i| i.as_array_mut()) {
        a.replace(index, path);
    }
}

/// `Array::push(path)` on the `general.import` array of a `[general]` table:
/// a new item at the end, the others as they were.
#[verifier::external_body]
pub fn push_import(doc: &mut DocumentMut, path: &str)
    requires
        import_layout(*old(doc)).general == GeneralShape::Table,
        import_layout(*old(doc)).has_array,
    ensures
        import_layout(*final(doc)) == import_layout(*old(doc)),
        import_entries(*final(doc)) == import_entries(*old(doc)).push(Some(path@)),
        import_item_texts(*final(doc)).len() == import_item_texts(*old(doc)).len() + 1,
        import_item_texts(*final(doc)).last() is Some,
        import_item_texts(*final(doc)).subrange(0, import_item_texts(*old(doc)).len() as int)
            == import_item_texts(*old(doc)),
        doc_rest(*final(doc)) == doc_rest(*old(doc)),
{
    let general = doc.get_mut("general").and_then(|g| g.as_table_mut());
    if let Some(a) = general.and_then(|t| t.get_mut("import")).and_then(|i| i.as_array_mut()) {
        a.push(path);
    }
}

/// `general["import"] = toml_edit::value(arr)` in a `[general]` table, where
/// `arr` is a new array holding the one string `path`; whatever `import`
/// held before is replaced.
#[verifier::external_body]
pub fn set_import_array(doc: &mut DocumentMut, path: &str)
    requires
        import_layout(*old(doc)).general == GeneralShape::Table,
    ensures
        import_layout(*final(doc)) == (ImportLayout { general: GeneralShape::Table, has_array: true }),
        import_entries(*final(doc)) == seq![Some(path@)],
        import_item_texts(*final(doc)).len() == 1,
        import_item_texts(*final(doc))[0] is Some,
        doc_rest(*final(doc)) == doc_rest(*old(doc)),
{
    let mut arr = toml_edit::Array::new();
    arr.push(path);
    if let Some(t) = doc.get_mut("general").and_then(|g| g.as_table_mut()) {
        t["import"] = toml_edit::value(arr);
    }
}

/// `Array::remove(index)` on the `general.import` array of a `[general]`
/// table: the item at `index` goes, the others stay as they were.
#[verifier::external_body]
pub fn remove_import(doc: &mut DocumentMut, index: usize)
    requires
        import_layout(*old(doc)).general == GeneralShape::Table,
        import_layout(*old(doc)).has_array,
        index < import_entries(*old(doc)).len(),
        import_entries(*old(doc))[index as int] is Some,
    ensures
        import_layout(*final(doc)) == import_layout(*old(doc)),
        import_entries(*final(doc)) == import_entries(*old(doc)).remove(index as int),
        import_item_texts(*final(doc)) == import_item_texts(*old(doc)).remove(index as int),
        doc_rest(*final(doc)) == doc_rest(*old(doc)),
{
    let general = doc.get_mut("general").and_then(|g| g.as_table_mut());
    if let Some(a) = general.and_then(|t| t.get_mut("import")).and_then(|i| i.as_array_mut()) {
        a.remove(index);
    }
}

} // verus!
