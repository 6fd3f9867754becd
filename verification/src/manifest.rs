//! The dependency records of `project.toml`, read and written through `toml_edit`
//! so that the rest of the document keeps its formatting.
//!
//! A `toml_edit::DocumentMut` is opaque here. What the library reads of it is named
//! by [`section_rows`] (the key/value pairs that `Table::get_values` lists for a
//! section), [`section_keys`] (the keys of a section table, in order), [`entry_cells`]
//! (the key/value pairs of `doc[section][name]`), [`entry_writable`] (whether writing
//! into `doc[section][name]` goes through), [`item_text`] (how an item prints) and
//! [`document_text`] (how the document prints). A parsed document is tied to its text
//! by the `parsed_*` names; the trusted items below state what each `toml_edit` call
//! does to these.

use vstd::prelude::*;
use crate::package::{PackageData, PackageView, package_views};
use crate::text::string_views;
use toml_edit::{DocumentMut, TomlError};

verus! {

#[verifier::external_type_specification]
#[verifier::external_body]
pub struct ExDocumentMut(toml_edit::DocumentMut);

#[verifier::external_type_specification]
#[verifier::external_body]
pub struct ExTomlError(toml_edit::TomlError);

/// A value as the records read it: its string, and its array items each as a string
/// (or `None` for an item that is no string).
pub type Cell = (Option<Seq<char>>, Option<Seq<Option<Seq<char>>>>);

/// One pair that `Table::get_values` lists: the key path, and the entries of the value
/// when it is an inline table (`None` for any other value).
pub type Row = (Seq<Seq<char>>, Option<Map<Seq<char>, Cell>>);

/// Whether `toml_edit` accepts `text` as a TOML document.
pub uninterp spec fn toml_accepts(text: Seq<char>) -> bool;

/// `None` when the document has no item `section`; `Some(None)` when that item is no
/// table; else the pairs that `get_values` lists for it, in order.
pub uninterp spec fn section_rows(doc: DocumentMut, section: Seq<char>) -> Option<Option<Seq<Row>>>;

/// The keys of the table `section`, in order, empty entries included.
pub uninterp spec fn section_keys(doc: DocumentMut, section: Seq<char>) -> Seq<Seq<char>>;

/// What `doc[outer]` (for `inner == None`) or `doc[outer][inner]` is: 0 absent, 1 a
/// table, 2 an inline table, 3 any other value or an array of tables.
pub uninterp spec fn item_kind(doc: DocumentMut, outer: Seq<char>, inner: Option<Seq<char>>) -> int;

/// Whether `doc[section][name][field] = ..` goes through for any `field` (the indexing
/// panics otherwise): `section` is absent, or it is a table or an inline table in which
/// `name` is absent, a table or an inline table.
pub open spec fn entry_writable(doc: DocumentMut, section: Seq<char>, name: Seq<char>) -> bool {
    let k = item_kind(doc, section, None);
    k == 0 || ((k == 1 || k == 2) && item_kind(doc, section, Some(name)) <= 2)
}

/// How the item `doc[outer][inner]` prints, when there is one.
pub uninterp spec fn item_text(doc: DocumentMut, outer: Seq<char>, inner: Seq<char>) -> Option<Seq<char>>;

/// The key/value pairs of `doc[section][name]` when it is a table or an inline table
/// (`None` otherwise), each value read as a [`Cell`] (a sub-table reads as `(None, None)`).
pub uninterp spec fn entry_cells(doc: DocumentMut, section: Seq<char>, name: Seq<char>) -> Option<Map<Seq<char>, Cell>>;

/// How the whole document prints.
pub uninterp spec fn document_text(doc: DocumentMut) -> Seq<char>;

/// [`section_rows`] of the document that `text` parses to.
pub uninterp spec fn parsed_rows(text: Seq<char>, section: Seq<char>) -> Option<Option<Seq<Row>>>;

/// [`section_keys`] of the document that `text` parses to.
pub uninterp spec fn parsed_keys(text: Seq<char>, section: Seq<char>) -> Seq<Seq<char>>;

/// [`item_text`] of the document that `text` parses to.
pub uninterp spec fn parsed_item_text(text: Seq<char>, outer: Seq<char>, inner: Seq<char>) -> Option<Seq<char>>;

/// [`entry_cells`] of the document that `text` parses to.
pub uninterp spec fn parsed_entry_cells(text: Seq<char>, section: Seq<char>, name: Seq<char>) -> Option<Map<Seq<char>, Cell>>;

/// [`item_kind`] of the document that `text` parses to.
pub uninterp spec fn parsed_item_kind(text: Seq<char>, outer: Seq<char>, inner: Option<Seq<char>>) -> int;

/// The document parsed from `text` reads as the `parsed_*` names of `text` say.
pub open spec fn document_of(doc: DocumentMut, text: Seq<char>) -> bool {
    &&& forall|s: Seq<char>| #[trigger] section_rows(doc, s) == parsed_rows(text, s)
    &&& forall|s: Seq<char>| #[trigger] section_keys(doc, s) == parsed_keys(text, s)
    &&& forall|o: Seq<char>, i: Seq<char>| #[trigger] item_text(doc, o, i) == parsed_item_text(text, o, i)
    &&& forall|o: Seq<char>, i: Seq<char>| #[trigger] entry_cells(doc, o, i) == parsed_entry_cells(text, o, i)
    &&& forall|o: Seq<char>, i: Option<Seq<char>>| #[trigger] item_kind(doc, o, i) == parsed_item_kind(text, o, i)
}

/// Between `d0` and `d1`, nothing but `doc[section][name]` changed as far as the names
/// read: other sections, other items and other entries are as they were.
pub open spec fn unchanged_elsewhere(d0: DocumentMut, d1: DocumentMut, section: Seq<char>, name: Seq<char>) -> bool {
    &&& forall|s: Seq<char>| s != section ==> #[trigger] section_rows(d1, s) == section_rows(d0, s)
    &&& forall|s: Seq<char>| s != section ==> #[trigger] section_keys(d1, s) == section_keys(d0, s)
    &&& forall|o: Seq<char>, i: Seq<char>|
        !(o == section && i == name) ==> #[trigger] item_text(d1, o, i) == item_text(d0, o, i)
    &&& forall|o: Seq<char>, i: Seq<char>|
        !(o == section && i == name) ==> #[trigger] entry_cells(d1, o, i) == entry_cells(d0, o, i)
    &&& forall|o: Seq<char>, i: Option<Seq<char>>|
        !(o == section && (i is None || i == Some(name))) ==> #[trigger] item_kind(d1, o, i) == item_kind(d0, o, i)
}

pub proof fn lemma_unchanged_elsewhere_trans(
    d0: DocumentMut,
    d1: DocumentMut,
    d2: DocumentMut,
    section: Seq<char>,
    name: Seq<char>,
)
    requires
        unchanged_elsewhere(d0, d1, section, name),
        unchanged_elsewhere(d1, d2, section, name),
    ensures
        unchanged_elsewhere(d0, d2, section, name),
{
    assert forall|s: Seq<char>| s != section implies #[trigger] section_rows(d2, s) == section_rows(d0, s) by {
        assert(section_rows(d1, s) == section_rows(d0, s));
    }
    assert forall|s: Seq<char>| s != section implies #[trigger] section_keys(d2, s) == section_keys(d0, s) by {
        assert(section_keys(d1, s) == section_keys(d0, s));
    }
    assert forall|o: Seq<char>, i: Seq<char>| !(o == section && i == name) implies #[trigger] item_text(d2, o, i) == item_text(d0, o, i) by {
        assert(item_text(d1, o, i) == item_text(d0, o, i));
    }
    assert forall|o: Seq<char>, i: Seq<char>| !(o == section && i == name) implies #[trigger] entry_cells(d2, o, i) == entry_cells(d0, o, i) by {
        assert(entry_cells(d1, o, i) == entry_cells(d0, o, i));
    }
    assert forall|o: Seq<char>, i: Option<Seq<char>>| !(o == section && (i is None || i == Some(name))) implies #[trigger] item_kind(d2, o, i) == item_kind(d0, o, i) by {
        assert(item_kind(d1, o, i) == item_kind(d0, o, i));
    }
}

/// The entries of `doc[section][name]`, or none when it is no table.
pub open spec fn base_cells(cells: Option<Map<Seq<char>, Cell>>) -> Map<Seq<char>, Cell> {
    match cells {
        Some(c) => c,
        None => Map::empty(),
    }
}

/// The `i`-th row of a section that is a table.
pub open spec fn section_row(doc: DocumentMut, section: Seq<char>, i: int) -> Row {
    section_rows(doc, section)->0->0[i]
}

/// The views of optional strings.
pub open spec fn opt_views(v: Seq<Option<String>>) -> Seq<Option<Seq<char>>> {
    v.map_values(|o: Option<String>| opt_view(o))
}

/// The view of an optional string.
pub open spec fn opt_view(o: Option<String>) -> Option<Seq<char>> {
    match o {
        Some(s) => Some(s@),
        None => None,
    }
}

/// The value of `field` in an inline table's entries.
pub open spec fn cell_of(cells: Option<Map<Seq<char>, Cell>>, field: Seq<char>) -> Option<Cell> {
    match cells {
        Some(m) => if m.contains_key(field) {
            Some(m[field])
        } else {
            None
        },
        None => None,
    }
}

/// The string value of `field`.
pub open spec fn cell_text(cells: Option<Map<Seq<char>, Cell>>, field: Seq<char>) -> Option<Seq<char>> {
    match cell_of(cells, field) {
        Some(c) => c.0,
        None => None,
    }
}

/// The array value of `field`.
pub open spec fn cell_texts(cells: Option<Map<Seq<char>, Cell>>, field: Seq<char>) -> Option<Seq<Option<Seq<char>>>> {
    match cell_of(cells, field) {
        Some(c) => c.1,
        None => None,
    }
}

/// The first index of `name` in `keys`, or -1.
pub open spec fn key_index(keys: Seq<Seq<char>>, name: Seq<char>) -> int
    decreases keys.len(),
{
    if keys.len() == 0 {
        -1
    } else {
        let i = key_index(keys.drop_last(), name);
        if i >= 0 {
            i
        } else if keys.last() == name {
            keys.len() - 1
        } else {
            -1
        }
    }
}

/// The first index of a row whose key path is `name` alone, or -1. Such a row is the
/// record `name` when it is an inline table written as `name = { .. }`.
pub open spec fn row_index(rows: Seq<Row>, name: Seq<char>) -> int
    decreases rows.len(),
{
    if rows.len() == 0 {
        -1
    } else {
        let i = row_index(rows.drop_last(), name);
        if i >= 0 {
            i
        } else if rows.last().0 == seq![name] {
            rows.len() - 1
        } else {
            -1
        }
    }
}

/// The rows after `doc[section][name][field]` is set to a value read as `cell`: the
/// row of the record gets the entry in place, or a new record goes last.
pub open spec fn rows_with_cell(rows: Seq<Row>, name: Seq<char>, field: Seq<char>, cell: Cell) -> Seq<Row> {
    let i = row_index(rows, name);
    if i >= 0 {
        rows.update(i, (rows[i].0, Some(rows[i].1->0.insert(field, cell))))
    } else {
        rows.push((seq![name], Some(Map::<Seq<char>, Cell>::empty().insert(field, cell))))
    }
}

/// The keys after `doc[section][name]` is written.
pub open spec fn keys_with(keys: Seq<Seq<char>>, name: Seq<char>) -> Seq<Seq<char>> {
    if key_index(keys, name) >= 0 {
        keys
    } else {
        keys.push(name)
    }
}

/// The record `name` is a row of the section, or the section has no key `name` yet;
/// either way a write into `doc[section][name]` shows as a row.
pub open spec fn record_as_row(rows: Seq<Row>, keys: Seq<Seq<char>>, name: Seq<char>) -> bool {
    row_index(rows, name) >= 0 || key_index(keys, name) < 0
}

/// Parses `text` with `toml_edit`; whether it is accepted is [`toml_accepts`], and the
/// document reads as the `parsed_*` names of the text.
#[verifier::external_body]
fn parse_document(text: &str) -> (r: Result<DocumentMut, TomlError>)
    ensures
        r is Ok <==> toml_accepts(text@),
        r is Ok ==> forall|s: Seq<char>| #[trigger] section_rows(r->Ok_0, s) == parsed_rows(text@, s),
        r is Ok ==> forall|s: Seq<char>| #[trigger] section_keys(r->Ok_0, s) == parsed_keys(text@, s),
        r is Ok ==> forall|o: Seq<char>, i: Seq<char>|
            #[trigger] item_text(r->Ok_0, o, i) == parsed_item_text(text@, o, i),
        r is Ok ==> forall|o: Seq<char>, i: Seq<char>|
            #[trigger] entry_cells(r->Ok_0, o, i) == parsed_entry_cells(text@, o, i),
        r is Ok ==> forall|o: Seq<char>, i: Option<Seq<char>>|
            #[trigger] item_kind(r->Ok_0, o, i) == parsed_item_kind(text@, o, i),
{
    text.parse::<DocumentMut>()
}

/// `doc.get(section).is_some()`: the document has an item `section`.
#[verifier::external_body]
fn section_present(doc: &DocumentMut, section: &str) -> (r: bool)
    ensures
        r == section_rows(*doc, section@) is Some,
{
    doc.get(section).is_some()
}

/// The number of pairs that `get_values` lists for the table `section` (0 when there is none).
#[verifier::external_body]
fn section_row_count(doc: &DocumentMut, section: &str) -> (n: usize)
    ensures
        match section_rows(*doc, section@) {
            Some(Some(rows)) => n == rows.len(),
            _ => n == 0,
        },
{
    match doc.get(section).and_then(toml_edit::Item::as_table) {
        Some(table) => table.get_values().len(),
        None => 0,
    }
}

/// The first key of the `i`-th pair that `get_values` lists for the table `section`.
#[verifier::external_body]
fn row_first_key(doc: &DocumentMut, section: &str, i: usize) -> (key: String)
    requires
        section_rows(*doc, section@) matches Some(Some(rows)) && i < rows.len(),
    ensures
        key@ == section_row(*doc, section@, i as int).0[0],
{
    let table = doc[section].as_table().unwrap();
    table.get_values()[i].0[0].get().to_string()
}

/// The string value of `field` in the `i`-th pair of `section`, when that pair is an
/// inline table whose `field` is a string.
#[verifier::external_body]
fn row_text(doc: &DocumentMut, section: &str, i: usize, field: &str) -> (r: Option<String>)
    requires
        section_rows(*doc, section@) matches Some(Some(rows)) && i < rows.len(),
    ensures
        opt_view(r) == cell_text(section_row(*doc, section@, i as int).1, field@),
{
    let table = doc[section].as_table().unwrap();
    let entry = table.get_values()[i].1.as_inline_table()?;
    Some(entry.get(field)?.as_str()?.to_string())
}

/// The items of the array `field` in the `i`-th pair of `section`, each as a string
/// when it is one, when that pair is an inline table whose `field` is an array.
#[verifier::external_body]
fn row_texts(doc: &DocumentMut, section: &str, i: usize, field: &str) -> (r: Option<Vec<Option<String>>>)
    requires
        section_rows(*doc, section@) matches Some(Some(rows)) && i < rows.len(),
    ensures
        match r {
            Some(items) => cell_texts(section_row(*doc, section@, i as int).1, field@) == Some(
                opt_views(items@),
            ),
            None => cell_texts(section_row(*doc, section@, i as int).1, field@) is None,
        },
{
    let table = doc[section].as_table().unwrap();
    let entry = table.get_values()[i].1.as_inline_table()?;
    let array = entry.get(field)?.as_array()?;
    Some(array.iter().map(|v| v.as_str().map(String::from)).collect())
}

/// What `doc[outer]` or `doc[outer][inner]` is (see [`item_kind`]). An absent section
/// holds nothing and lists no rows.
#[verifier::external_body]
fn kind_at(doc: &DocumentMut, outer: &str, inner: Option<&str>) -> (r: u8)
    ensures
        r as int == item_kind(*doc, outer@, match inner {
            Some(n) => Some(n@),
            None => None,
        }),
        inner is None && r == 0 ==> forall|n: Seq<char>| #[trigger] item_kind(*doc, outer@, Some(n)) == 0,
        inner is None ==> (r == 0 <==> section_rows(*doc, outer@) is None),
{
    let outer_item = match doc.get(outer) {
        Some(item) => item,
        None => return 0,
    };
    let item = match inner {
        None => outer_item,
        Some(n) => match outer_item.get(n) {
            Some(item) => item,
            None => return 0,
        },
    };
    if item.is_table() { 1 } else if item.is_inline_table() { 2 } else { 3 }
}

/// Whether `doc[section][name][..] = ..` goes through (see [`entry_writable`]).
fn entry_is_writable(doc: &DocumentMut, section: &str, name: &str) -> (r: bool)
    ensures
        r == entry_writable(*doc, section@, name@),
{
    let outer = kind_at(doc, section, None);
    if outer == 0 {
        return true;
    }
    if outer != 1 && outer != 2 {
        return false;
    }
    let inner = kind_at(doc, section, Some(name));
    inner <= 2
}

/// `doc[section][name][field] = toml_edit::value(text)`: a missing section or record
/// becomes an inline table, the entry `field` of the record reads as the string `text`,
/// and nothing else changes. In a section that is a table, `Table::entry` keeps a key
/// where it stands and appends a new one, so the keys are [`keys_with`] and, when the
/// record is a row or is new ([`record_as_row`]), the rows are [`rows_with_cell`]. What
/// the rows become when `name` is a sub-table or a dotted key is left unsaid here.
#[verifier::external_body]
fn set_entry_text(doc: &mut DocumentMut, section: &str, name: &str, field: &str, text: &str)
    requires
        entry_writable(*old(doc), section@, name@),
    ensures
        entry_writable(*final(doc), section@, name@),
        entry_cells(*final(doc), section@, name@) == Some(
            base_cells(entry_cells(*old(doc), section@, name@)).insert(field@, (Some(text@), None)),
        ),
        unchanged_elsewhere(*old(doc), *final(doc), section@, name@),
        section_rows(*old(doc), section@) matches Some(Some(rows)) ==> {
            &&& section_rows(*final(doc), section@) matches Some(Some(_))
            &&& section_keys(*final(doc), section@) == keys_with(section_keys(*old(doc), section@), name@)
            &&& record_as_row(rows, section_keys(*old(doc), section@), name@) ==> section_rows(
                *final(doc),
                section@,
            ) == Some(Some(rows_with_cell(rows, name@, field@, (Some(text@), None))))
        },
{
    doc[section][name][field] = toml_edit::value(text);
}

/// `doc[section][name][field]` set to an array of the strings `items`, as
/// [`set_entry_text`] does for one string.
#[verifier::external_body]
fn set_entry_texts(doc: &mut DocumentMut, section: &str, name: &str, field: &str, items: &Vec<String>)
    requires
        entry_writable(*old(doc), section@, name@),
    ensures
        entry_writable(*final(doc), section@, name@),
        entry_cells(*final(doc), section@, name@) == Some(
            base_cells(entry_cells(*old(doc), section@, name@)).insert(field@, (None, Some(string_views(items@).map_values(|s: Seq<char>| Some(s))))),
        ),
        unchanged_elsewhere(*old(doc), *final(doc), section@, name@),
        section_rows(*old(doc), section@) matches Some(Some(rows)) ==> {
            &&& section_rows(*final(doc), section@) matches Some(Some(_))
            &&& section_keys(*final(doc), section@) == keys_with(section_keys(*old(doc), section@), name@)
            &&& record_as_row(rows, section_keys(*old(doc), section@), name@) ==> section_rows(
                *final(doc),
                section@,
            ) == Some(Some(rows_with_cell(
                rows,
                name@,
                field@,
                (None, Some(string_views(items@).map_values(|s: Seq<char>| Some(s)))),
            )))
        },
{
    let array = toml_edit::Array::from_iter(items.iter());
    doc[section][name][field] = toml_edit::Item::Value(toml_edit::Value::Array(array));
}

/// `doc.to_string()`: the text of the document.
#[verifier::external_body]
fn print_document(doc: &DocumentMut) -> (text: String)
    ensures
        text@ == document_text(*doc),
{
    doc.to_string()
}

/// `doc[outer][inner].to_string()`, when both items exist.
#[verifier::external_body]
fn nested_item_text(doc: &DocumentMut, outer: &str, inner: &str) -> (r: Option<String>)
    ensures
        opt_view(r) == item_text(*doc, outer@, inner@),
{
    Some(doc.get(outer)?.get(inner)?.to_string())
}


/// Why the dependency records could not be read or written.
pub enum ManifestError {
    /// The text is no TOML document.
    InvalidDocument,
    /// `doc["dependencies"][name]` is a value that no record can be written into.
    UnwritableRecord,
    /// `[dependencies]` is missing, or a record lacks a string `repo`, `base_url`, `tag`
    /// or `fetch_mode`, or an array `lib_names`, or is no inline table.
    MalformedDependencies,
}

/// The strings among optional strings, in order.
pub open spec fn present_texts(items: Seq<Option<Seq<char>>>) -> Seq<Seq<char>>
    decreases items.len(),
{
    if items.len() == 0 {
        seq![]
    } else {
        let rest = present_texts(items.drop_last());
        match items.last() {
            Some(t) => rest.push(t),
            None => rest,
        }
    }
}

/// The record a row holds: named by its first key, with a string `repo`, `base_url`,
/// `tag` and `fetch_mode` and an array `lib_names` whose strings are the libraries.
pub open spec fn row_package(row: Row) -> Option<PackageView> {
    let c = row.1;
    if cell_text(c, "repo"@) is Some && cell_text(c, "base_url"@) is Some && cell_text(
        c,
        "tag"@,
    ) is Some && cell_text(c, "fetch_mode"@) is Some && cell_texts(c, "lib_names"@) is Some {
        Some(
            PackageView {
                name: row.0[0],
                repo: cell_text(c, "repo"@)->0,
                base_url: cell_text(c, "base_url"@)->0,
                tag: cell_text(c, "tag"@)->0,
                fetch_mode: cell_text(c, "fetch_mode"@)->0,
                lib_names: present_texts(cell_texts(c, "lib_names"@)->0),
            },
        )
    } else {
        None
    }
}

/// The records of all rows, in order; `None` when one row holds no record.
pub open spec fn rows_packages(rows: Seq<Row>) -> Option<Seq<PackageView>>
    decreases rows.len(),
{
    if rows.len() == 0 {
        Some(seq![])
    } else {
        match (rows_packages(rows.drop_last()), row_package(rows.last())) {
            (Some(ps), Some(p)) => Some(ps.push(p)),
            _ => None,
        }
    }
}

/// The records of `[dependencies]`: none when it is no table, `None` when it is
/// missing or holds an entry that is no record.
pub open spec fn spec_read_packages(doc: DocumentMut) -> Option<Seq<PackageView>> {
    match section_rows(doc, "dependencies"@) {
        None => None,
        Some(None) => Some(seq![]),
        Some(Some(rows)) => rows_packages(rows),
    }
}

/// The entries of an inline table after a record is written into it.
pub open spec fn record_cells(cells: Map<Seq<char>, Cell>, p: PackageView) -> Map<Seq<char>, Cell> {
    cells.insert("repo"@, (Some(p.repo), None)).insert("base_url"@, (Some(p.base_url), None)).insert(
        "tag"@,
        (Some(p.tag), None),
    ).insert("fetch_mode"@, (Some(p.fetch_mode), None)).insert(
        "lib_names"@,
        (None, Some(p.lib_names.map_values(|s: Seq<char>| Some(s)))),
    )
}

/// The rows of `[dependencies]` after the record `p` is written: the row of the record
/// `p.name` gets the fields in place, else a new inline table goes last.
pub open spec fn recorded_rows(rows: Seq<Row>, p: PackageView) -> Seq<Row> {
    let i = row_index(rows, p.name);
    if i >= 0 {
        rows.update(i, (rows[i].0, Some(record_cells(rows[i].1->0, p))))
    } else {
        rows.push((seq![p.name], Some(record_cells(Map::empty(), p))))
    }
}

/// The records after `p` is recorded among the records `ps` read from `rows`: in the
/// place of the record `p.name`, or last.
pub open spec fn packages_recorded(ps: Seq<PackageView>, rows: Seq<Row>, p: PackageView) -> Seq<PackageView> {
    let i = row_index(rows, p.name);
    if i >= 0 {
        ps.update(i, p)
    } else {
        ps.push(p)
    }
}

pub proof fn lemma_key_index(keys: Seq<Seq<char>>, name: Seq<char>)
    ensures
        -1 <= key_index(keys, name) < keys.len(),
        key_index(keys, name) >= 0 ==> keys[key_index(keys, name)] == name,
        key_index(keys, name) < 0 ==> key_index(keys.push(name), name) == keys.len(),
        key_index(keys, name) >= 0 ==> key_index(keys.push(name), name) == key_index(keys, name),
    decreases keys.len(),
{
    if keys.len() > 0 {
        lemma_key_index(keys.drop_last(), name);
    }
    assert(keys.push(name).drop_last() =~= keys);
}

pub proof fn lemma_rows_packages_prefix(rows: Seq<Row>, j: int)
    requires
        rows_packages(rows) is Some,
        0 <= j <= rows.len(),
    ensures
        rows_packages(rows.take(j)) is Some,
    decreases rows.len(),
{
    if j == rows.len() {
        assert(rows.take(j) =~= rows);
    } else {
        lemma_rows_packages_prefix(rows.drop_last(), j);
        assert(rows.drop_last().take(j) =~= rows.take(j));
    }
}

pub proof fn lemma_malformed_row(rows: Seq<Row>, i: int)
    requires
        0 <= i < rows.len(),
        row_package(rows[i]) is None,
    ensures
        rows_packages(rows) is None,
{
    if rows_packages(rows) is Some {
        lemma_rows_packages_prefix(rows, i + 1);
        assert(rows.take(i + 1).drop_last() =~= rows.take(i));
        assert(rows.take(i + 1).last() == rows[i]);
    }
}

pub proof fn lemma_rows_packages_len(rows: Seq<Row>)
    requires
        rows_packages(rows) is Some,
    ensures
        rows_packages(rows)->0.len() == rows.len(),
        forall|i: int| 0 <= i < rows.len() ==> row_package(#[trigger] rows[i]) == Some(rows_packages(rows)->0[i]),
    decreases rows.len(),
{
    if rows.len() > 0 {
        lemma_rows_packages_len(rows.drop_last());
        assert forall|i: int| 0 <= i < rows.len() implies row_package(#[trigger] rows[i]) == Some(rows_packages(rows)->0[i]) by {
            if i < rows.len() - 1 {
                assert(rows.drop_last()[i] == rows[i]);
            }
        }
    }
}

pub proof fn lemma_rows_packages_update(rows: Seq<Row>, i: int, row: Row, p: PackageView)
    requires
        rows_packages(rows) is Some,
        0 <= i < rows.len(),
        row_package(row) == Some(p),
    ensures
        rows_packages(rows.update(i, row)) == Some(rows_packages(rows)->0.update(i, p)),
    decreases rows.len(),
{
    lemma_rows_packages_len(rows);
    if i == rows.len() - 1 {
        assert(rows.update(i, row).drop_last() =~= rows.drop_last());
        assert(rows_packages(rows)->0.update(i, p) =~= rows_packages(rows.drop_last())->0.push(p));
    } else {
        lemma_rows_packages_update(rows.drop_last(), i, row, p);
        assert(rows.update(i, row).drop_last() =~= rows.drop_last().update(i, row));
        assert(rows_packages(rows)->0.update(i, p) =~= rows_packages(rows.drop_last())->0.update(i, p).push(
            rows_packages(rows)->0.last(),
        ));
    }
}

pub proof fn lemma_present_texts_all(items: Seq<Seq<char>>)
    ensures
        present_texts(items.map_values(|s: Seq<char>| Some(s))) == items,
    decreases items.len(),
{
    if items.len() > 0 {
        lemma_present_texts_all(items.drop_last());
        assert(items.map_values(|s: Seq<char>| Some(s)).drop_last() =~= items.drop_last().map_values(
            |s: Seq<char>| Some(s),
        ));
        assert(items.drop_last().push(items.last()) =~= items);
    }
}

pub proof fn lemma_record_cells_package(name: Seq<Seq<char>>, cells: Map<Seq<char>, Cell>, p: PackageView)
    requires
        name.len() >= 1,
        name[0] == p.name,
    ensures
        row_package((name, Some(record_cells(cells, p)))) == Some(p),
{
    reveal_strlit("repo");
    reveal_strlit("base_url");
    reveal_strlit("tag");
    reveal_strlit("fetch_mode");
    reveal_strlit("lib_names");
    lemma_present_texts_all(p.lib_names);
    assert("repo"@.len() == 4 && "base_url"@.len() == 8 && "tag"@.len() == 3);
    assert("fetch_mode"@.len() == 10 && "lib_names"@.len() == 9);
    let c = Some(record_cells(cells, p));
    assert(cell_text(c, "repo"@) == Some(p.repo));
    assert(cell_text(c, "base_url"@) == Some(p.base_url));
    assert(cell_text(c, "tag"@) == Some(p.tag));
    assert(cell_text(c, "fetch_mode"@) == Some(p.fetch_mode));
}

pub proof fn lemma_row_index(rows: Seq<Row>, name: Seq<char>)
    ensures
        -1 <= row_index(rows, name) < rows.len(),
        row_index(rows, name) >= 0 ==> rows[row_index(rows, name)].0 == seq![name],
        forall|row: Row| row.0 == seq![name] && row_index(rows, name) < 0 ==> #[trigger] row_index(rows.push(row), name) == rows.len(),
        forall|i: int, row: Row|
            row.0 == rows[i].0 && 0 <= i < rows.len() ==> #[trigger] row_index(rows.update(i, row), name) == row_index(rows, name),
    decreases rows.len(),
{
    if rows.len() > 0 {
        lemma_row_index(rows.drop_last(), name);
    }
    assert forall|row: Row| row.0 == seq![name] && row_index(rows, name) < 0 implies #[trigger] row_index(rows.push(row), name) == rows.len() by {
        assert(rows.push(row).drop_last() =~= rows);
    }
    assert forall|i: int, row: Row|
        row.0 == rows[i].0 && 0 <= i < rows.len() implies #[trigger] row_index(rows.update(i, row), name) == row_index(rows, name) by {
        lemma_row_index_update(rows, i, row, name);
    }
}

proof fn lemma_row_index_update(rows: Seq<Row>, i: int, row: Row, name: Seq<char>)
    requires
        0 <= i < rows.len(),
        row.0 == rows[i].0,
    ensures
        row_index(rows.update(i, row), name) == row_index(rows, name),
    decreases rows.len(),
{
    if i == rows.len() - 1 {
        assert(rows.update(i, row).drop_last() =~= rows.drop_last());
    } else {
        lemma_row_index_update(rows.drop_last(), i, row, name);
        assert(rows.update(i, row).drop_last() =~= rows.drop_last().update(i, row));
    }
}

/// Writing a record sets `repo`, `base_url`, `tag` and `fetch_mode` to its strings and
/// `lib_names` to the array of its libraries, under those very names, and leaves every
/// other entry as it was.
pub proof fn lemma_record_cells_fields(cells: Map<Seq<char>, Cell>, p: PackageView)
    ensures
        ({
            let c = record_cells(cells, p);
            &&& c.contains_key("repo"@) && c["repo"@] == (Some(p.repo), None::<Seq<Option<Seq<char>>>>)
            &&& c.contains_key("base_url"@) && c["base_url"@] == (Some(p.base_url), None::<Seq<Option<Seq<char>>>>)
            &&& c.contains_key("tag"@) && c["tag"@] == (Some(p.tag), None::<Seq<Option<Seq<char>>>>)
            &&& c.contains_key("fetch_mode"@) && c["fetch_mode"@] == (Some(p.fetch_mode), None::<Seq<Option<Seq<char>>>>)
            &&& c.contains_key("lib_names"@)
            &&& c["lib_names"@].0 is None
            &&& c["lib_names"@].1 == Some(p.lib_names.map_values(|s: Seq<char>| Some(s)))
            &&& forall|k: Seq<char>|
                k != "repo"@ && k != "base_url"@ && k != "tag"@ && k != "fetch_mode"@ && k != "lib_names"@
                    ==> (#[trigger] c.contains_key(k) == cells.contains_key(k)) && c[k] == cells[k]
        }),
{
    reveal_strlit("repo");
    reveal_strlit("base_url");
    reveal_strlit("tag");
    reveal_strlit("fetch_mode");
    reveal_strlit("lib_names");
    assert("repo"@.len() == 4 && "base_url"@.len() == 8 && "tag"@.len() == 3);
    assert("fetch_mode"@.len() == 10 && "lib_names"@.len() == 9);
}

/// A row reads as a record exactly when it holds strings under `repo`, `base_url`,
/// `tag` and `fetch_mode` and an array under `lib_names`; the record is named by the
/// row's first key and takes each field from the entry of that very name, its
/// libraries being the strings of the array.
pub proof fn lemma_row_package_fields(row: Row)
    ensures
        row_package(row) is Some <==> (cell_text(row.1, "repo"@) is Some && cell_text(row.1, "base_url"@) is Some
            && cell_text(row.1, "tag"@) is Some && cell_text(row.1, "fetch_mode"@) is Some
            && cell_texts(row.1, "lib_names"@) is Some),
        row_package(row) is Some ==> {
            let p = row_package(row)->0;
            &&& p.name == row.0[0]
            &&& cell_text(row.1, "repo"@) == Some(p.repo)
            &&& cell_text(row.1, "base_url"@) == Some(p.base_url)
            &&& cell_text(row.1, "tag"@) == Some(p.tag)
            &&& cell_text(row.1, "fetch_mode"@) == Some(p.fetch_mode)
            &&& p.lib_names == present_texts(cell_texts(row.1, "lib_names"@)->0)
        },
{
}

/// Reading back what was recorded: in a `[dependencies]` table whose records all read,
/// after the record `p` is written the records read as before, with `p` in the place of
/// the record `p.name`, or last when there was none.
pub proof fn lemma_recorded_package_reads_back(rows: Seq<Row>, p: PackageView)
    requires
        rows_packages(rows) is Some,
    ensures
        rows_packages(recorded_rows(rows, p)) == Some(packages_recorded(rows_packages(rows)->0, rows, p)),
{
    lemma_row_index(rows, p.name);
    let i = row_index(rows, p.name);
    if i >= 0 {
        lemma_record_cells_package(rows[i].0, rows[i].1->0, p);
        lemma_rows_packages_update(rows, i, (rows[i].0, Some(record_cells(rows[i].1->0, p))), p);
    } else {
        lemma_record_cells_package(seq![p.name], Map::empty(), p);
        let r = recorded_rows(rows, p);
        assert(r.drop_last() =~= rows);
    }
}

/// Recording the same record twice leaves `[dependencies]` as recording it once: the
/// second write finds the record under its key and as its row, and rewrites it in place.
pub proof fn lemma_record_twice(rows: Seq<Row>, keys: Seq<Seq<char>>, p: PackageView)
    ensures
        keys_with(keys_with(keys, p.name), p.name) == keys_with(keys, p.name),
        record_as_row(recorded_rows(rows, p), keys_with(keys, p.name), p.name),
        recorded_rows(recorded_rows(rows, p), p) == recorded_rows(rows, p),
{
    lemma_key_index(keys, p.name);
    lemma_row_index(rows, p.name);
    let once = recorded_rows(rows, p);
    let i = row_index(rows, p.name);
    if i >= 0 {
        let c = rows[i].1->0;
        let row = (rows[i].0, Some(record_cells(c, p)));
        assert(row_index(rows.update(i, row), p.name) == i);
        assert(record_cells(record_cells(c, p), p) =~= record_cells(c, p));
        assert(once.update(i, (once[i].0, Some(record_cells(once[i].1->0, p)))) =~= once);
    } else {
        let c = Map::<Seq<char>, Cell>::empty();
        let row = (seq![p.name], Some(record_cells(c, p)));
        let j = rows.len() as int;
        assert(row_index(rows.push(row), p.name) == j);
        assert(record_cells(record_cells(c, p), p) =~= record_cells(c, p));
        assert(once.update(j, (once[j].0, Some(record_cells(once[j].1->0, p)))) =~= once);
    }
}

/// Adding the same record twice gives the records that adding it once gives.
pub proof fn lemma_packages_recorded_twice(ps: Seq<PackageView>, rows: Seq<Row>, p: PackageView)
    requires
        ps.len() == rows.len(),
    ensures
        packages_recorded(packages_recorded(ps, rows, p), recorded_rows(rows, p), p) == packages_recorded(ps, rows, p),
{
    lemma_row_index(rows, p.name);
    let i = row_index(rows, p.name);
    if i >= 0 {
        let row = (rows[i].0, Some(record_cells(rows[i].1->0, p)));
        assert(row_index(rows.update(i, row), p.name) == i);
        assert(ps.update(i, p).update(i, p) =~= ps.update(i, p));
    } else {
        let row = (seq![p.name], Some(record_cells(Map::empty(), p)));
        assert(row_index(rows.push(row), p.name) == rows.len());
        assert(ps.push(p).update(rows.len() as int, p) =~= ps.push(p));
    }
}

/// The text of the document, to write back to `project.toml`.
pub fn manifest_text(doc: &DocumentMut) -> (text: String)
    ensures
        text@ == document_text(*doc),
{
    print_document(doc)
}

/// Recording the same record twice writes the entries that recording it once writes.
pub proof fn lemma_record_cells_twice(cells: Map<Seq<char>, Cell>, p: PackageView)
    ensures
        record_cells(record_cells(cells, p), p) == record_cells(cells, p),
{
    assert(record_cells(record_cells(cells, p), p) =~= record_cells(cells, p));
}

/// Parses the text of `project.toml`.
pub fn parse_manifest(text: &str) -> (r: Result<DocumentMut, ManifestError>)
    ensures
        r is Ok <==> toml_accepts(text@),
        r is Err ==> r->Err_0 is InvalidDocument,
        r is Ok ==> document_of(r->Ok_0, text@),
{
    match parse_document(text) {
        Ok(doc) => Ok(doc),
        Err(_) => Err(ManifestError::InvalidDocument),
    }
}

/// The project name as `doc["package"]["name"]` prints, when that item exists.
pub fn project_name(doc: &DocumentMut) -> (r: Option<String>)
    ensures
        opt_view(r) == item_text(*doc, "package"@, "name"@),
{
    nested_item_text(doc, "package", "name")
}

/// The strings among `items`, in order.
pub fn present_strings(items: &Vec<Option<String>>) -> (out: Vec<String>)
    ensures
        string_views(out@) == present_texts(opt_views(items@)),
{
    let mut out: Vec<String> = Vec::new();
    for k in 0..items.len()
        invariant
            string_views(out@) == present_texts(opt_views(items@.take(k as int))),
    {
        let ghost before = out@;
        assert(opt_views(items@.take(k + 1)).drop_last() =~= opt_views(items@.take(k as int)));
        assert(opt_views(items@.take(k + 1)).last() == opt_view(items@[k as int]));
        match &items[k] {
            Some(t) => {
                out.push(t.clone());
                assert(string_views(out@) =~= string_views(before).push(t@));
            },
            None => {},
        }
    }
    assert(items@.take(items@.len() as int) =~= items@);
    out
}

/// The dependency records of `[dependencies]` (see [`spec_read_packages`]), or `None`
/// when `[dependencies]` is missing or holds an entry that is no record.
pub fn try_read_packages(doc: &DocumentMut) -> (r: Option<Vec<PackageData>>)
    ensures
        match r {
            Some(ps) => spec_read_packages(*doc) == Some(package_views(ps@)),
            None => spec_read_packages(*doc) is None,
        },
{
    let section = "dependencies";
    assert(section@ == "dependencies"@);
    if !section_present(doc, section) {
        return None;
    }
    let n = section_row_count(doc, section);
    let mut out: Vec<PackageData> = Vec::new();
    for i in 0..n
        invariant
            section@ == "dependencies"@,
            section_rows(*doc, section@) is Some,
            section_rows(*doc, section@)->0 is None ==> n == 0 && out@.len() == 0,
            section_rows(*doc, section@)->0 is Some ==> {
                let rows = section_rows(*doc, section@)->0->0;
                &&& n == rows.len()
                &&& rows_packages(rows.take(i as int)) == Some(package_views(out@))
            },
    {
        let ghost rows = section_rows(*doc, section@)->0->0;
        assert(rows.take(i + 1).drop_last() =~= rows.take(i as int));
        assert(rows.take(i + 1).last() == rows[i as int]);
        assert(section_rows(*doc, section@)->0 is Some);
        let name = row_first_key(doc, section, i);
        let repo = match row_text(doc, section, i, "repo") {
            Some(t) => t,
            None => {
                proof {
                    lemma_malformed_row(rows, i as int);
                }
                return None;
            },
        };
        let base_url = match row_text(doc, section, i, "base_url") {
            Some(t) => t,
            None => {
                proof {
                    lemma_malformed_row(rows, i as int);
                }
                return None;
            },
        };
        let tag = match row_text(doc, section, i, "tag") {
            Some(t) => t,
            None => {
                proof {
                    lemma_malformed_row(rows, i as int);
                }
                return None;
            },
        };
        let fetch_mode = match row_text(doc, section, i, "fetch_mode") {
            Some(t) => t,
            None => {
                proof {
                    lemma_malformed_row(rows, i as int);
                }
                return None;
            },
        };
        let libs = match row_texts(doc, section, i, "lib_names") {
            Some(items) => items,
            None => {
                proof {
                    lemma_malformed_row(rows, i as int);
                }
                return None;
            },
        };
        let lib_names = present_strings(&libs);
        let ghost before = out@;
        let pkg = PackageData { name, repo, base_url, tag, fetch_mode, lib_names };
        assert(row_package(rows[i as int]) == Some(pkg@));
        out.push(pkg);
        assert(package_views(out@) =~= package_views(before).push(pkg@));
    }
    proof {
        if section_rows(*doc, section@)->0 is Some {
            let rows = section_rows(*doc, section@)->0->0;
            assert(rows.take(n as int) =~= rows);
        } else {
            assert(package_views(out@) =~= Seq::<PackageView>::empty());
        }
    }
    Some(out)
}

/// The dependency records of `[dependencies]`, for a document whose `[dependencies]`
/// is present and holds records only (else the records cannot be read).
pub fn read_packages(doc: &DocumentMut) -> (r: Vec<PackageData>)
    requires
        spec_read_packages(*doc) is Some,
    ensures
        package_views(r@) == spec_read_packages(*doc)->0,
{
    match try_read_packages(doc) {
        Some(ps) => ps,
        None => Vec::new(),
    }
}

/// Writes the record `pkg` into `doc["dependencies"][pkg.name]`: `repo`, `base_url`,
/// `tag` and `fetch_mode` as strings and `lib_names` as an array, in that order. When
/// `[dependencies]` is a table, its keys gain `pkg.name` last if it was not one, and
/// when the record is a row or is new its rows are [`recorded_rows`].
pub fn record_package(doc: &mut DocumentMut, pkg: &PackageData)
    requires
        entry_writable(*old(doc), "dependencies"@, pkg.name@),
    ensures
        entry_writable(*final(doc), "dependencies"@, pkg.name@),
        entry_cells(*final(doc), "dependencies"@, pkg.name@) == Some(
            record_cells(base_cells(entry_cells(*old(doc), "dependencies"@, pkg.name@)), pkg@),
        ),
        cell_text(entry_cells(*final(doc), "dependencies"@, pkg.name@), "repo"@) == Some(pkg.repo@),
        cell_text(entry_cells(*final(doc), "dependencies"@, pkg.name@), "base_url"@) == Some(pkg.base_url@),
        cell_text(entry_cells(*final(doc), "dependencies"@, pkg.name@), "tag"@) == Some(pkg.tag@),
        cell_text(entry_cells(*final(doc), "dependencies"@, pkg.name@), "fetch_mode"@) == Some(pkg.fetch_mode@),
        cell_texts(entry_cells(*final(doc), "dependencies"@, pkg.name@), "lib_names"@) == Some(
            string_views(pkg.lib_names@).map_values(|s: Seq<char>| Some(s)),
        ),
        unchanged_elsewhere(*old(doc), *final(doc), "dependencies"@, pkg.name@),
        section_rows(*old(doc), "dependencies"@) matches Some(Some(rows)) ==> {
            &&& section_rows(*final(doc), "dependencies"@) matches Some(Some(_))
            &&& section_keys(*final(doc), "dependencies"@) == keys_with(
                section_keys(*old(doc), "dependencies"@),
                pkg.name@,
            )
            &&& record_as_row(rows, section_keys(*old(doc), "dependencies"@), pkg.name@) ==> section_rows(
                *final(doc),
                "dependencies"@,
            ) == Some(Some(recorded_rows(rows, pkg@)))
        },
{
    let section = "dependencies";
    let name = pkg.name.as_str();
    let ghost d0 = *doc;
    proof {
        lemma_record_cells_fields(base_cells(entry_cells(d0, section@, name@)), pkg@);
    }
    let ghost keys0 = section_keys(d0, section@);
    let ghost rows0 = section_rows(d0, section@)->0->0;
    let ghost table = section_rows(d0, section@) matches Some(Some(_));
    let ghost as_row = table && record_as_row(rows0, keys0, name@);
    proof {
        lemma_key_index(keys0, name@);
        lemma_row_index(rows0, name@);
    }
    set_entry_text(doc, section, name, "repo", pkg.repo.as_str());
    let ghost d1 = *doc;
    let ghost rows1 = section_rows(d1, section@)->0->0;
    proof {
        if table {
            lemma_key_index(section_keys(d1, section@), name@);
        }
        if as_row {
            lemma_row_index(rows1, name@);
            if row_index(rows0, name@) >= 0 {
                let i = row_index(rows0, name@);
                assert(rows1 == rows0.update(i, (rows0[i].0, Some(rows0[i].1->0.insert("repo"@, (Some(pkg.repo@), None))))));
            } else {
                assert(row_index(rows1, name@) == rows0.len());
            }
        }
    }
    set_entry_text(doc, section, name, "base_url", pkg.base_url.as_str());
    let ghost d2 = *doc;
    proof {
        lemma_unchanged_elsewhere_trans(d0, d1, d2, section@, name@);
        if as_row {
            lemma_row_index(section_rows(d2, section@)->0->0, name@);
        }
    }
    set_entry_text(doc, section, name, "tag", pkg.tag.as_str());
    let ghost d3 = *doc;
    proof {
        lemma_unchanged_elsewhere_trans(d0, d2, d3, section@, name@);
        if as_row {
            lemma_row_index(section_rows(d3, section@)->0->0, name@);
        }
    }
    set_entry_text(doc, section, name, "fetch_mode", pkg.fetch_mode.as_str());
    let ghost d4 = *doc;
    proof {
        lemma_unchanged_elsewhere_trans(d0, d3, d4, section@, name@);
        if as_row {
            lemma_row_index(section_rows(d4, section@)->0->0, name@);
        }
    }
    set_entry_texts(doc, section, name, "lib_names", &pkg.lib_names);
    proof {
        lemma_unchanged_elsewhere_trans(d0, d4, *doc, section@, name@);
        assert(entry_cells(*doc, section@, name@)->0 =~= record_cells(
            base_cells(entry_cells(d0, section@, name@)),
            pkg@,
        ));
        if as_row {
            let rows5 = section_rows(*doc, section@)->0->0;
            let expected = recorded_rows(rows0, pkg@);
            if row_index(rows0, name@) >= 0 {
                let i = row_index(rows0, name@);
                assert(rows5[i].1->0 =~= expected[i].1->0);
                assert(rows5 =~= expected);
            } else {
                let i = rows0.len() as int;
                assert(rows5[i].1->0 =~= expected[i].1->0);
                assert(rows5 =~= expected);
            }
        }
    }
}

/// [`record_package`] when `doc["dependencies"][pkg.name]` can be written into; else
/// `false`, with `doc` unchanged.
pub fn try_record_package(doc: &mut DocumentMut, pkg: &PackageData) -> (written: bool)
    ensures
        written == entry_writable(*old(doc), "dependencies"@, pkg.name@),
        !written ==> *final(doc) == *old(doc),
        written ==> entry_cells(*final(doc), "dependencies"@, pkg.name@) == Some(
            record_cells(base_cells(entry_cells(*old(doc), "dependencies"@, pkg.name@)), pkg@),
        ),
        written ==> cell_text(entry_cells(*final(doc), "dependencies"@, pkg.name@), "repo"@) == Some(pkg.repo@),
        written ==> cell_text(entry_cells(*final(doc), "dependencies"@, pkg.name@), "base_url"@) == Some(pkg.base_url@),
        written ==> cell_text(entry_cells(*final(doc), "dependencies"@, pkg.name@), "tag"@) == Some(pkg.tag@),
        written ==> cell_text(entry_cells(*final(doc), "dependencies"@, pkg.name@), "fetch_mode"@) == Some(pkg.fetch_mode@),
        written ==> cell_texts(entry_cells(*final(doc), "dependencies"@, pkg.name@), "lib_names"@) == Some(
            string_views(pkg.lib_names@).map_values(|s: Seq<char>| Some(s)),
        ),
        written ==> unchanged_elsewhere(*old(doc), *final(doc), "dependencies"@, pkg.name@),
        written ==> (section_rows(*old(doc), "dependencies"@) matches Some(Some(rows)) ==> {
            &&& section_rows(*final(doc), "dependencies"@) matches Some(Some(_))
            &&& section_keys(*final(doc), "dependencies"@) == keys_with(
                section_keys(*old(doc), "dependencies"@),
                pkg.name@,
            )
            &&& record_as_row(rows, section_keys(*old(doc), "dependencies"@), pkg.name@) ==> section_rows(
                *final(doc),
                "dependencies"@,
            ) == Some(Some(recorded_rows(rows, pkg@)))
        }),
{
    if entry_is_writable(doc, "dependencies", pkg.name.as_str()) {
        record_package(doc, pkg);
        true
    } else {
        false
    }
}

/// What `cmkt add` does to `project.toml`: records `pkg`, then reads all records back.
/// In a `[dependencies]` table whose records read and in which the record is a row or
/// is new, the result is the old records with `pkg` in the place of the record of the
/// same name, or last.
pub fn add_package_to_manifest(doc: &mut DocumentMut, pkg: &PackageData) -> (r: Result<Vec<PackageData>, ManifestError>)
    ensures
        r matches Err(ManifestError::UnwritableRecord) <==> !entry_writable(*old(doc), "dependencies"@, pkg.name@),
        !entry_writable(*old(doc), "dependencies"@, pkg.name@) ==> *final(doc) == *old(doc),
        entry_writable(*old(doc), "dependencies"@, pkg.name@) ==> entry_cells(*final(doc), "dependencies"@, pkg.name@) == Some(
            record_cells(base_cells(entry_cells(*old(doc), "dependencies"@, pkg.name@)), pkg@),
        ),
        entry_writable(*old(doc), "dependencies"@, pkg.name@) ==> cell_text(entry_cells(*final(doc), "dependencies"@, pkg.name@), "repo"@) == Some(pkg.repo@),
        entry_writable(*old(doc), "dependencies"@, pkg.name@) ==> cell_text(entry_cells(*final(doc), "dependencies"@, pkg.name@), "base_url"@) == Some(pkg.base_url@),
        entry_writable(*old(doc), "dependencies"@, pkg.name@) ==> cell_text(entry_cells(*final(doc), "dependencies"@, pkg.name@), "tag"@) == Some(pkg.tag@),
        entry_writable(*old(doc), "dependencies"@, pkg.name@) ==> cell_text(entry_cells(*final(doc), "dependencies"@, pkg.name@), "fetch_mode"@) == Some(pkg.fetch_mode@),
        entry_writable(*old(doc), "dependencies"@, pkg.name@) ==> cell_texts(entry_cells(*final(doc), "dependencies"@, pkg.name@), "lib_names"@) == Some(
            string_views(pkg.lib_names@).map_values(|s: Seq<char>| Some(s)),
        ),
        entry_writable(*old(doc), "dependencies"@, pkg.name@) ==> unchanged_elsewhere(*old(doc), *final(doc), "dependencies"@, pkg.name@),
        entry_writable(*old(doc), "dependencies"@, pkg.name@) && section_rows(*old(doc), "dependencies"@) is Some
            && section_rows(*old(doc), "dependencies"@)->0 is Some ==> section_keys(*final(doc), "dependencies"@)
            == keys_with(section_keys(*old(doc), "dependencies"@), pkg.name@),
        item_text(*final(doc), "package"@, "name"@) == item_text(*old(doc), "package"@, "name"@),
        r matches Err(ManifestError::MalformedDependencies) <==> (entry_writable(*old(doc), "dependencies"@, pkg.name@)
            && spec_read_packages(*final(doc)) is None),
        r matches Ok(ps) ==> spec_read_packages(*final(doc)) == Some(package_views(ps@)),
        !(r matches Err(ManifestError::InvalidDocument)),
        entry_writable(*old(doc), "dependencies"@, pkg.name@) ==> (section_rows(*old(doc), "dependencies"@) matches Some(
            Some(rows),
        ) ==> (record_as_row(rows, section_keys(*old(doc), "dependencies"@), pkg.name@) && rows_packages(rows) is Some
            ==> (r matches Ok(ps) && package_views(ps@) == packages_recorded(rows_packages(rows)->0, rows, pkg@)))),
{
    let ghost d0 = *doc;
    if !try_record_package(doc, pkg) {
        return Err(ManifestError::UnwritableRecord);
    }
    proof {
        reveal_strlit("package");
        reveal_strlit("dependencies");
        assert("package"@.len() != "dependencies"@.len());
        assert(item_text(*doc, "package"@, "name"@) == item_text(d0, "package"@, "name"@));
        if section_rows(d0, "dependencies"@) is Some && section_rows(d0, "dependencies"@)->0 is Some {
            let rows0 = section_rows(d0, "dependencies"@)->0->0;
            if rows_packages(rows0) is Some {
                lemma_recorded_package_reads_back(rows0, pkg@);
            }
        }
    }
    match try_read_packages(doc) {
        Some(ps) => Ok(ps),
        None => Err(ManifestError::MalformedDependencies),
    }
}

} // verus!
