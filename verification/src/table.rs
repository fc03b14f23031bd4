//! A manifest as the rewrite sees it: the keys of the document, the items
//! of each of its tables, and the fields of each dependency that is written
//! as an inline table.
//!
//! The document itself stays with `toml_edit`, which keeps its comments and
//! spacing. What is stated here of that crate's functions is believed, not
//! proved.

use crate::text::text_of;
use toml_edit::Document;
use toml_edit::InlineTable;
use toml_edit::TomlError;
use vstd::prelude::*;

verus! {

#[verifier::external_type_specification]
#[verifier::external_body]
pub struct ExInlineTable(InlineTable);

#[verifier::external_type_specification]
#[verifier::external_body]
pub struct ExDocument(Document);

#[verifier::external_type_specification]
#[verifier::external_body]
pub struct ExTomlError(TomlError);

/// What a table holds under one name.
#[derive(Debug, Clone, Copy, PartialEq, Eq, Structural)]
pub enum Kind {
    /// A table with a header of its own.
    Table,
    /// An array of tables with headers of their own.
    ArrayOfTables,
    /// A table written between braces.
    InlineTable,
    /// Any other value: a string, a number, an array.
    Value,
}

/// What an inline table holds under one key.
pub struct Field {
    /// The string, where the value is a string.
    pub text: Option<Seq<char>>,
    /// What is written before the value, where that was set.
    pub prefix: Option<Seq<char>>,
    /// What is written after the value, where that was set.
    pub suffix: Option<Seq<char>>,
    /// What stands under the key, written out on its own.
    pub written: Seq<char>,
}

/// One inline table that stands directly in a top-level table.
pub struct Entry {
    /// The key of the top-level table that holds it.
    pub table: Seq<char>,
    /// The name it is declared under.
    pub name: Seq<char>,
    /// Its fields.
    pub fields: Map<Seq<char>, Field>,
}

/// The fields of inline tables, by the key of the top-level table and the
/// name in it.
pub type Fields = Map<(Seq<char>, Seq<char>), Map<Seq<char>, Field>>;

/// The items of tables: the name and the kind of each, in order.
pub type Members = Seq<(Seq<char>, Kind)>;

/// A document as far as the library speaks of it.
pub struct Manifest {
    /// The keys of the document, in order.
    pub keys: Seq<Seq<char>>,
    /// The items of every top-level table, by its key.
    pub members: Map<Seq<char>, Members>,
    /// The fields of every inline table that stands directly in a
    /// top-level table.
    pub fields: Fields,
    /// The document written out with an empty table in place of each of
    /// those inline tables.
    pub frame: Seq<char>,
    /// The document written out.
    pub text: Seq<char>,
}

/// The fields of `table`, by key. Every key of the table counts, whatever
/// stands under it.
pub uninterp spec fn table_fields(table: InlineTable) -> Map<Seq<char>, Field>;

/// A new string `value` with `prefix` before it and `suffix` after it,
/// written out on its own.
pub uninterp spec fn string_written(value: Seq<char>, prefix: Seq<char>, suffix: Seq<char>) -> Seq<
    char,
>;

/// The keys of `doc` that hold something, in the order the document holds
/// them.
pub uninterp spec fn document_keys(doc: Document) -> Seq<Seq<char>>;

/// The items of every top-level table of `doc`, by the key of the table: a
/// key of the document that holds anything but a table is no key of this
/// map.
pub uninterp spec fn document_members(doc: Document) -> Map<Seq<char>, Members>;

/// The fields of every inline table that stands directly in a top-level
/// table of `doc`, by the key of that table and the name in it.
pub uninterp spec fn document_fields(doc: Document) -> Fields;

/// `doc` written out with an empty table in place of every inline table
/// that stands directly in a top-level table: all of the document but those
/// tables.
pub uninterp spec fn document_frame(doc: Document) -> Seq<char>;

/// `doc` written out.
pub uninterp spec fn document_text(doc: Document) -> Seq<char>;

/// The document that `text` parses to; `None` where `text` is not TOML.
pub uninterp spec fn parsed_manifest(text: Seq<char>) -> Option<Manifest>;

/// `doc` as far as the library speaks of it.
pub open spec fn manifest_of(doc: Document) -> Manifest {
    Manifest {
        keys: document_keys(doc),
        members: document_members(doc),
        fields: document_fields(doc),
        frame: document_frame(doc),
        text: document_text(doc),
    }
}

/// The inline tables among the items `members` of the table `table`, in
/// order. An item of any other kind is no entry.
pub open spec fn table_entries(table: Seq<char>, members: Members, fields: Fields) -> Seq<Entry>
    decreases members.len(),
{
    if members.len() == 0 {
        Seq::empty()
    } else {
        let earlier = table_entries(table, members.drop_last(), fields);
        let member = members.last();
        if member.1 == Kind::InlineTable {
            earlier.push(Entry { table, name: member.0, fields: fields[(table, member.0)] })
        } else {
            earlier
        }
    }
}

/// The inline tables that stand directly in the tables under `keys`, in
/// order. A key that holds no table has no entries.
pub open spec fn entries_of(keys: Seq<Seq<char>>, members: Map<Seq<char>, Members>, fields: Fields) -> Seq<
    Entry,
>
    decreases keys.len(),
{
    if keys.len() == 0 {
        Seq::empty()
    } else {
        let earlier = entries_of(keys.drop_last(), members, fields);
        let key = keys.last();
        if members.contains_key(key) {
            earlier + table_entries(key, members[key], fields)
        } else {
            earlier
        }
    }
}

impl Manifest {
    /// The inline tables that stand directly in the top-level tables, in
    /// order.
    pub open spec fn entries(self) -> Seq<Entry> {
        entries_of(self.keys, self.members, self.fields)
    }
}

/// The inline tables that stand directly in the top-level tables of `doc`,
/// in the order the document holds them.
pub open spec fn document_entries(doc: Document) -> Seq<Entry> {
    manifest_of(doc).entries()
}

/// The entries of the document that `text` parses to.
pub open spec fn parsed_entries(text: Seq<char>) -> Option<Seq<Entry>> {
    match parsed_manifest(text) {
        Some(parsed) => Some(parsed.entries()),
        None => None,
    }
}

/// The document that `text` parses to, written out again.
pub open spec fn reprinted(text: Seq<char>) -> Option<Seq<char>> {
    match parsed_manifest(text) {
        Some(parsed) => Some(parsed.text),
        None => None,
    }
}

/// A new string written with `prefix` before it and `suffix` after it.
pub open spec fn written(text: Seq<char>, prefix: Seq<char>, suffix: Seq<char>) -> Field {
    Field {
        text: Some(text),
        prefix: Some(prefix),
        suffix: Some(suffix),
        written: string_written(text, prefix, suffix),
    }
}

/// The string under `key`, where there is one.
pub open spec fn text_at(fields: Map<Seq<char>, Field>, key: Seq<char>) -> Option<Seq<char>> {
    if fields.contains_key(key) {
        fields[key].text
    } else {
        None
    }
}

/// `entry` is the one declared as `name` in the table `table`.
pub open spec fn is_named(entry: Entry, table: Seq<char>, name: Seq<char>) -> bool {
    entry.table == table && entry.name == name
}

/// `entries` with `fields` in place of the fields of the entry declared as
/// `name` in `table`.
pub open spec fn with_fields(
    entries: Seq<Entry>,
    table: Seq<char>,
    name: Seq<char>,
    fields: Map<Seq<char>, Field>,
) -> Seq<Entry> {
    Seq::new(
        entries.len(),
        |i: int|
            if is_named(entries[i], table, name) {
                Entry { table, name, fields }
            } else {
                entries[i]
            },
    )
}

/// Strings as mathematical values.
pub open spec fn texts_view(texts: Seq<String>) -> Seq<Seq<char>> {
    texts.map_values(|text: String| text@)
}

/// Items as mathematical values.
pub open spec fn members_view(members: Seq<(String, Kind)>) -> Members {
    members.map_values(|member: (String, Kind)| (member.0@, member.1))
}

/// `InlineTable::get`, then `Value::as_str`: the string under `key`, and
/// `None` where the key is missing or holds no string.
#[verifier::external_body]
pub(crate) fn field_text(table: &InlineTable, key: &str) -> (r: Option<String>)
    ensures
        text_of(r) == text_at(table_fields(*table), key@),
{
    table.get(key).and_then(|v| v.as_str()).map(|s| s.to_string())
}

/// `InlineTable::remove`: whatever stood under `key` is gone, the other
/// fields stay.
#[verifier::external_body]
pub(crate) fn remove_field(table: &mut InlineTable, key: &str)
    ensures
        table_fields(*final(table)) == table_fields(*old(table)).remove(key@),
{
    table.remove(key);
}

/// `InlineTable::get_or_insert`, assigned a string made by `Value::from`
/// and `Value::decorated`: `key` then holds `value` with `prefix` before
/// and `suffix` after it, the other fields stay. That function panics on a
/// key that holds something that is no value, which a key that is missing
/// or holds a string does not.
#[verifier::external_body]
pub(crate) fn set_field(table: &mut InlineTable, key: &str, value: &str, prefix: &str, suffix: &str)
    requires
        table_fields(*old(table)).contains_key(key@) ==> table_fields(*old(table))[key@].text is Some,
    ensures
        table_fields(*final(table)) == table_fields(*old(table)).insert(
            key@,
            (Field {
                text: Some(value@),
                prefix: Some(prefix@),
                suffix: Some(suffix@),
                written: string_written(value@, prefix@, suffix@),
            }),
        ),
{
    *table.get_or_insert(key, "") = toml_edit::Value::from(value).decorated(prefix, suffix);
}

/// `Document::from_str`: the document that `text` parses to, or the
/// parser's error. The contract names what the library says of that
/// document after `text`, and claims nothing else.
#[verifier::external_body]
pub(crate) fn parse_document(text: &str) -> (r: Result<Document, TomlError>)
    ensures
        match r {
            Ok(doc) => parsed_manifest(text@) == Some(manifest_of(doc)),
            Err(_) => parsed_manifest(text@) is None,
        },
{
    text.parse::<Document>()
}

/// `TomlError`'s `to_string`: the parser's message. Nothing is claimed of
/// it.
#[verifier::external_body]
pub(crate) fn error_text(error: &TomlError) -> (r: String) {
    error.to_string()
}

/// `Table::iter` on the document: every key of it that holds something,
/// in the document's order. No key comes twice, since a table holds a key
/// once.
#[verifier::external_body]
pub(crate) fn root_keys(doc: &Document) -> (r: Vec<String>)
    ensures
        texts_view(r@) == document_keys(*doc),
        forall|i: int, j: int| 0 <= i < j < r@.len() ==> r@[i]@ != r@[j]@,
{
    match doc.as_item().as_table() {
        Some(root) => root.iter().map(|(key, _)| key.to_string()).collect(),
        None => Vec::new(),
    }
}

/// `Table::get`, `Item::as_table` and `Table::iter`: every item of the
/// top-level table under `table` by its name and its kind, in the
/// document's order, and `None` where the document holds no table there.
/// No name comes twice, and what is handed out as an inline table is one
/// whose fields the document holds.
#[verifier::external_body]
pub(crate) fn table_items(doc: &Document, table: &str) -> (r: Option<Vec<(String, Kind)>>)
    ensures
        r is Some <==> document_members(*doc).contains_key(table@),
        r matches Some(items) ==> members_view(items@) == document_members(*doc)[table@],
        r matches Some(items) ==> forall|i: int, j: int|
            0 <= i < j < items@.len() ==> items@[i].0@ != items@[j].0@,
        r matches Some(items) ==> forall|i: int|
            0 <= i < items@.len() && items@[i].1 == Kind::InlineTable ==> document_fields(
                *doc,
            ).contains_key((table@, #[trigger] items@[i].0@)),
{
    let table = doc.as_item().as_table()?.get(table)?.as_table()?;
    let kind = |item: &toml_edit::Item| match item {
        toml_edit::Item::Table(_) => Kind::Table,
        toml_edit::Item::ArrayOfTables(_) => Kind::ArrayOfTables,
        toml_edit::Item::Value(toml_edit::Value::InlineTable(_)) => Kind::InlineTable,
        _ => Kind::Value,
    };
    Some(table.iter().map(|(name, item)| (name.to_string(), kind(item))).collect())
}

/// `Table::get_mut` twice and `Item::as_inline_table_mut`: the inline
/// table declared as `name` in the top-level table `table`, to be changed
/// in place. Whatever is done to it is done to the fields of that entry
/// and to nothing else in the document.
#[verifier::external_body]
pub(crate) fn inline_table_mut<'a>(doc: &'a mut Document, table: &str, name: &str) -> (r: Option<
    &'a mut InlineTable,
>)
    ensures
        r is Some <==> document_fields(*old(doc)).contains_key((table@, name@)),
        r matches Some(t) ==> table_fields(*t) == document_fields(*old(doc))[(table@, name@)],
        r matches Some(t) ==> document_fields(*final(doc)) == document_fields(*old(doc)).insert(
            (table@, name@),
            table_fields(*final(t)),
        ),
        r is Some ==> document_keys(*final(doc)) == document_keys(*old(doc)),
        r is Some ==> document_members(*final(doc)) == document_members(*old(doc)),
        r is Some ==> document_frame(*final(doc)) == document_frame(*old(doc)),
        r is None ==> *final(doc) == *old(doc),
{
    doc.as_item_mut().as_table_mut()?.get_mut(table)?.as_table_mut()?.get_mut(
        name,
    )?.as_inline_table_mut()
}

/// `Document`'s `to_string`: the document written out.
#[verifier::external_body]
pub(crate) fn document_string(doc: &Document) -> (r: String)
    ensures
        r@ == document_text(*doc),
{
    doc.to_string()
}

} // verus!
