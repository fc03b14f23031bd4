//! Rewriting a whole manifest: every dependency that is written as an
//! inline table in a top-level table whose key holds `dependencies`.
//!
//! A dependency written as a bare string, or as a table with a header of
//! its own, is no inline table and is passed over, as is everything else
//! in the document.

use crate::error::UpdateError;
use crate::error::UpdateErrorView;
use crate::facts::Facts;
use crate::facts::FactsView;
use crate::rewrite::failure_of;
use crate::rewrite::handle_dependency;
use crate::rewrite::package_of;
use crate::rewrite::rewritten;
use crate::table::Entry;
use crate::table::Field;
use crate::table::Fields;
use crate::table::Kind;
use crate::table::Manifest;
use crate::table::Members;
use crate::table::document_entries;
use crate::table::document_fields;
use crate::table::document_frame;
use crate::table::document_keys;
use crate::table::document_members;
use crate::table::document_string;
use crate::table::document_text;
use crate::table::entries_of;
use crate::table::error_text;
use crate::table::field_text;
use crate::table::inline_table_mut;
use crate::table::is_named;
use crate::table::manifest_of;
use crate::table::members_view;
use crate::table::parse_document;
use crate::table::parsed_manifest;
use crate::table::root_keys;
use crate::table::table_entries;
use crate::table::table_fields;
use crate::table::table_items;
use crate::table::text_at;
use crate::table::texts_view;
use crate::table::with_fields;
use crate::text::contains;
use crate::text::occurs_in;
use crate::update::Key;
use crate::update::KeyView;
use crate::update::Rewrite;
use crate::update::RewriteView;
use toml_edit::Document;
use vstd::prelude::*;
use vstd::string::StringExecFns;

verus! {

/// Whether the top-level table under `key` holds dependencies.
pub open spec fn is_dependency_table(key: Seq<char>) -> bool {
    occurs_in("dependencies"@, key)
}

/// None of `entries` stands in a table of dependencies.
pub open spec fn holds_no_dependency(entries: Seq<Entry>) -> bool {
    forall|i: int| 0 <= i < entries.len() ==> !is_dependency_table(#[trigger] entries[i].table)
}

/// `entry` after the rewrite: rewritten where its table holds
/// dependencies, else as it was.
pub open spec fn rewritten_entry(
    entry: Entry,
    rewrite: RewriteView,
    key: KeyView,
    facts: FactsView,
) -> Entry {
    if is_dependency_table(entry.table) {
        Entry {
            table: entry.table,
            name: entry.name,
            fields: rewritten(entry.fields, entry.name, rewrite, key, facts),
        }
    } else {
        entry
    }
}

/// `entries` after the rewrite, each in its place.
pub open spec fn rewritten_entries(
    entries: Seq<Entry>,
    rewrite: RewriteView,
    key: KeyView,
    facts: FactsView,
) -> Seq<Entry> {
    entries.map_values(|entry: Entry| rewritten_entry(entry, rewrite, key, facts))
}

/// Why the rewrite of `entry` fails, if it does.
pub open spec fn entry_failure(entry: Entry, key: KeyView, facts: FactsView) -> Option<
    UpdateErrorView,
> {
    if is_dependency_table(entry.table) {
        failure_of(entry.fields, entry.name, key, facts)
    } else {
        None
    }
}

/// The failures of the dependencies among `entries`, in their order.
pub open spec fn failures_of(entries: Seq<Entry>, key: KeyView, facts: FactsView) -> Seq<
    UpdateErrorView,
>
    decreases entries.len(),
{
    if entries.len() == 0 {
        Seq::empty()
    } else {
        let earlier = failures_of(entries.drop_last(), key, facts);
        match entry_failure(entries.last(), key, facts) {
            Some(error) => earlier.push(error),
            None => earlier,
        }
    }
}

/// The remote URLs of the dependencies among `entries`, in their order.
pub open spec fn remotes_of(entries: Seq<Entry>) -> Seq<Seq<char>>
    decreases entries.len(),
{
    if entries.len() == 0 {
        Seq::empty()
    } else {
        let earlier = remotes_of(entries.drop_last());
        let entry = entries.last();
        match text_at(entry.fields, "git"@) {
            Some(url) => if is_dependency_table(entry.table) {
                earlier.push(url)
            } else {
                earlier
            },
            None => earlier,
        }
    }
}

/// The packages that the dependencies among `entries` stand for, in their
/// order.
pub open spec fn packages_of(entries: Seq<Entry>) -> Seq<Seq<char>>
    decreases entries.len(),
{
    if entries.len() == 0 {
        Seq::empty()
    } else {
        let earlier = packages_of(entries.drop_last());
        let entry = entries.last();
        if is_dependency_table(entry.table) {
            earlier.push(package_of(entry.fields, entry.name))
        } else {
            earlier
        }
    }
}

/// No two of `entries` are declared under one name in one table.
pub open spec fn distinct(entries: Seq<Entry>) -> bool {
    forall|i: int, j: int|
        0 <= i < j < entries.len() ==> !is_named(
            #[trigger] entries[i],
            (#[trigger] entries[j]).table,
            entries[j].name,
        )
}

/// Errors as mathematical values.
pub open spec fn errors_view(errors: Seq<UpdateError>) -> Seq<UpdateErrorView> {
    errors.map_values(|error: UpdateError| error@)
}

/// `fields` holds the fields of each of `entries` under its table and
/// name.
pub open spec fn holds_fields(entries: Seq<Entry>, fields: Fields) -> bool {
    forall|i: int|
        0 <= i < entries.len() ==> fields.contains_key(
            ((#[trigger] entries[i]).table, entries[i].name),
        ) && fields[(entries[i].table, entries[i].name)] == entries[i].fields
}

/// `after` is `before` rewritten: the same keys, the same items in every
/// table and the same document around the inline tables, with every
/// dependency among the inline tables rewritten and every other inline
/// table as it was.
pub open spec fn is_rewrite_of(
    after: Manifest,
    before: Manifest,
    rewrite: RewriteView,
    key: KeyView,
    facts: FactsView,
) -> bool {
    &&& after.keys == before.keys
    &&& after.members == before.members
    &&& after.frame == before.frame
    &&& after.entries() == rewritten_entries(before.entries(), rewrite, key, facts)
}

/// Putting new fields under one table and name changes the entry of that
/// table and name among the entries of a table, and no other.
proof fn table_entries_follow_fields(
    table: Seq<char>,
    members: Members,
    fields: Fields,
    at: Seq<char>,
    name: Seq<char>,
    new: Map<Seq<char>, Field>,
)
    ensures
        table_entries(table, members, fields.insert((at, name), new)) == with_fields(
            table_entries(table, members, fields),
            at,
            name,
            new,
        ),
    decreases members.len(),
{
    let changed = fields.insert((at, name), new);
    if members.len() > 0 {
        table_entries_follow_fields(table, members.drop_last(), fields, at, name, new);
    }
    assert(table_entries(table, members, changed) =~= with_fields(
        table_entries(table, members, fields),
        at,
        name,
        new,
    ));
}

/// Putting new fields under one table and name changes the entry of that
/// table and name among the entries of a document, and no other.
proof fn entries_follow_fields(
    keys: Seq<Seq<char>>,
    members: Map<Seq<char>, Members>,
    fields: Fields,
    at: Seq<char>,
    name: Seq<char>,
    new: Map<Seq<char>, Field>,
)
    ensures
        entries_of(keys, members, fields.insert((at, name), new)) == with_fields(
            entries_of(keys, members, fields),
            at,
            name,
            new,
        ),
    decreases keys.len(),
{
    let changed = fields.insert((at, name), new);
    if keys.len() > 0 {
        entries_follow_fields(keys.drop_last(), members, fields, at, name, new);
        if members.contains_key(keys.last()) {
            table_entries_follow_fields(keys.last(), members[keys.last()], fields, at, name, new);
        }
    }
    assert(entries_of(keys, members, changed) =~= with_fields(
        entries_of(keys, members, fields),
        at,
        name,
        new,
    ));
}

/// The table and the name of every inline table that stands directly in a
/// top-level table of `doc`, in the document's order.
///
/// An item of a top-level table that is anything but an inline table is
/// left out, and so is every key of the document that holds no table. No
/// two of the entries share table and name.
pub fn inline_entries(doc: &Document) -> (r: Vec<(String, String)>)
    ensures
        r@.len() == document_entries(*doc).len(),
        forall|i: int|
            0 <= i < r@.len() ==> is_named(
                #[trigger] document_entries(*doc)[i],
                r@[i].0@,
                r@[i].1@,
            ),
        distinct(document_entries(*doc)),
        holds_fields(document_entries(*doc), document_fields(*doc)),
{
    let keys = root_keys(doc);
    let ghost all = document_keys(*doc);
    let ghost members = document_members(*doc);
    let ghost fields = document_fields(*doc);
    let mut out: Vec<(String, String)> = Vec::new();
    let ghost mut found: Seq<Entry> = Seq::empty();
    let ghost mut origin: Seq<(int, int)> = Seq::empty();
    let mut i: usize = 0;
    assert(all.subrange(0, 0) =~= Seq::empty());
    while i < keys.len()
        invariant
            i <= keys.len(),
            texts_view(keys@) == all,
            forall|a: int, b: int| 0 <= a < b < keys@.len() ==> keys@[a]@ != keys@[b]@,
            members == document_members(*doc),
            fields == document_fields(*doc),
            found == entries_of(all.subrange(0, i as int), members, fields),
            out@.len() == found.len(),
            origin.len() == found.len(),
            forall|k: int|
                0 <= k < found.len() ==> is_named(#[trigger] found[k], out@[k].0@, out@[k].1@),
            forall|k: int|
                0 <= k < found.len() ==> 0 <= (#[trigger] origin[k]).0 < i && found[k].table
                    == all[origin[k].0],
            distinct(found),
            holds_fields(found, fields),
        decreases keys.len() - i,
    {
        let key = keys[i].as_str();
        assert(all[i as int] == keys@[i as int]@);
        let ghost grown = all.subrange(0, i + 1);
        assert(grown.drop_last() =~= all.subrange(0, i as int));
        assert(grown.last() == key@);
        match table_items(doc, key) {
            Some(items) => {
                let ghost ms = members[key@];
                let ghost base = found;
                assert(ms.subrange(0, 0) =~= Seq::empty());
                assert(base + Seq::<Entry>::empty() =~= base);
                let mut j: usize = 0;
                while j < items.len()
                    invariant
                        j <= items.len(),
                        i < keys.len(),
                        members_view(items@) == ms,
                        key@ == all[i as int],
                        texts_view(keys@) == all,
                        forall|a: int, b: int| 0 <= a < b < keys@.len() ==> keys@[a]@ != keys@[b]@,
                        forall|a: int, b: int|
                            0 <= a < b < items@.len() ==> items@[a].0@ != items@[b].0@,
                        forall|a: int|
                            0 <= a < items@.len() && items@[a].1 == Kind::InlineTable
                                ==> fields.contains_key((key@, #[trigger] items@[a].0@)),
                        found == base + table_entries(key@, ms.subrange(0, j as int), fields),
                        out@.len() == found.len(),
                        origin.len() == found.len(),
                        forall|k: int|
                            0 <= k < found.len() ==> is_named(
                                #[trigger] found[k],
                                out@[k].0@,
                                out@[k].1@,
                            ),
                        forall|k: int|
                            0 <= k < found.len() ==> {
                                ||| 0 <= (#[trigger] origin[k]).0 < i && found[k].table
                                    == all[origin[k].0]
                                ||| origin[k].0 == i && found[k].table == key@ && 0 <= origin[k].1
                                    < j && found[k].name == ms[origin[k].1].0
                            },
                        distinct(found),
                        holds_fields(found, fields),
                    decreases items.len() - j,
                {
                    let ghost member = ms[j as int];
                    let ghost longer = ms.subrange(0, j + 1);
                    assert(member == (items@[j as int].0@, items@[j as int].1));
                    assert(longer.drop_last() =~= ms.subrange(0, j as int));
                    assert(longer.last() == member);
                    if matches!(items[j].1, Kind::InlineTable) {
                        let ghost entry = Entry {
                            table: key@,
                            name: member.0,
                            fields: fields[(key@, member.0)],
                        };
                        proof {
                            assert forall|k: int| 0 <= k < found.len() implies !is_named(
                                #[trigger] found[k],
                                entry.table,
                                entry.name,
                            ) by {
                                if origin[k].0 < i {
                                    assert(all[origin[k].0] == keys@[origin[k].0]@);
                                } else {
                                    assert(ms[origin[k].1] == (
                                        items@[origin[k].1].0@,
                                        items@[origin[k].1].1,
                                    ));
                                }
                            }
                            assert(base + table_entries(key@, longer, fields) =~= found.push(entry));
                            found = found.push(entry);
                            origin = origin.push((i as int, j as int));
                        }
                        out.push((String::from_str(key), items[j].0.clone()));
                    }
                    j += 1;
                }
                assert(ms.subrange(0, j as int) =~= ms);
            },
            None => {},
        }
        i += 1;
    }
    assert(all.subrange(0, i as int) =~= all);
    out
}

/// Rewrites every dependency of `doc` in place and returns the failures,
/// in the order of the dependencies that failed.
///
/// A dependency is an inline table in a top-level table whose key holds
/// `dependencies`. Nothing else in the document is touched: not a
/// dependency written in another way, not an inline table in another
/// table, not a key or a comment. A dependency that fails does not stop
/// the others. A document that holds no dependencies stays as it is.
pub fn rewrite_document(doc: &mut Document, rewrite: &Rewrite, key: &Key, facts: &Facts) -> (failures:
    Vec<UpdateError>)
    ensures
        is_rewrite_of(manifest_of(*final(doc)), manifest_of(*old(doc)), rewrite@, key@, facts@),
        errors_view(failures@) == failures_of(document_entries(*old(doc)), key@, facts@),
        holds_no_dependency(document_entries(*old(doc))) ==> *final(doc) == *old(doc),
{
    let ghost initial = *doc;
    let ghost before = document_entries(*doc);
    let slots = inline_entries(doc);
    let mut failures: Vec<UpdateError> = Vec::new();
    let mut i: usize = 0;
    assert(before.subrange(0, 0) =~= Seq::empty());
    assert(errors_view(failures@) =~= Seq::empty());
    while i < slots.len()
        invariant
            i <= slots.len(),
            slots@.len() == before.len(),
            forall|j: int|
                0 <= j < before.len() ==> is_named(#[trigger] before[j], slots@[j].0@, slots@[j].1@),
            distinct(before),
            document_keys(*doc) == document_keys(initial),
            document_members(*doc) == document_members(initial),
            document_frame(*doc) == document_frame(initial),
            document_entries(*doc).len() == before.len(),
            holds_fields(document_entries(*doc), document_fields(*doc)),
            forall|j: int|
                0 <= j < i ==> #[trigger] document_entries(*doc)[j] == rewritten_entry(
                    before[j],
                    rewrite@,
                    key@,
                    facts@,
                ),
            forall|j: int| i <= j < before.len() ==> #[trigger] document_entries(*doc)[j] == before[j],
            errors_view(failures@) == failures_of(before.subrange(0, i as int), key@, facts@),
            (forall|j: int| 0 <= j < i ==> !is_dependency_table(#[trigger] before[j].table)) ==> *doc
                == initial,
        decreases slots.len() - i,
    {
        let ghost now = document_entries(*doc);
        let ghost held = document_fields(*doc);
        let ghost entry = before[i as int];
        let ghost grown = before.subrange(0, i + 1);
        assert(grown.drop_last() =~= before.subrange(0, i as int));
        assert(grown.last() == entry);
        let table = slots[i].0.as_str();
        let name = slots[i].1.as_str();
        assert(is_named(entry, table@, name@));
        if contains(table, "dependencies") {
            assert(is_named(now[i as int], table@, name@));
            match inline_table_mut(doc, table, name) {
                Some(dep) => {
                    assert(table_fields(*dep) == entry.fields);
                    match handle_dependency(name, dep, rewrite, key, facts) {
                        Ok(_) => {},
                        Err(error) => {
                            proof {
                                assert(errors_view(failures@.push(error)) =~= errors_view(
                                    failures@,
                                ).push(error@));
                            }
                            failures.push(error);
                        },
                    }
                },
                None => {},
            }
            proof {
                let new = rewritten(entry.fields, entry.name, rewrite@, key@, facts@);
                assert(document_fields(*doc) == held.insert((table@, name@), new));
                entries_follow_fields(
                    document_keys(initial),
                    document_members(initial),
                    held,
                    table@,
                    name@,
                    new,
                );
                let after = document_entries(*doc);
                assert(after == with_fields(now, table@, name@, new));
                assert forall|j: int| 0 <= j < i + 1 implies #[trigger] after[j] == rewritten_entry(
                    before[j],
                    rewrite@,
                    key@,
                    facts@,
                ) by {
                    if j < i {
                        assert(!is_named(before[j], entry.table, entry.name));
                        assert(now[j] == rewritten_entry(before[j], rewrite@, key@, facts@));
                    }
                }
                assert forall|j: int| i + 1 <= j < before.len() implies #[trigger] after[j]
                    == before[j] by {
                    assert(!is_named(before[i as int], before[j].table, before[j].name));
                    assert(now[j] == before[j]);
                }
                assert forall|j: int| 0 <= j < after.len() implies document_fields(*doc).contains_key(
                    ((#[trigger] after[j]).table, after[j].name),
                ) && document_fields(*doc)[(after[j].table, after[j].name)] == after[j].fields by {
                    assert(held.contains_key((now[j].table, now[j].name)));
                }
            }
        }
        i += 1;
    }
    assert(before.subrange(0, i as int) =~= before);
    assert(document_entries(*doc) =~= rewritten_entries(before, rewrite@, key@, facts@));
    failures
}

/// A manifest after the rewrite.
#[derive(Debug, Clone, PartialEq, Eq)]
pub struct Rewritten {
    /// The manifest written out again.
    pub text: String,
    /// The dependencies that failed, in their order.
    pub failures: Vec<UpdateError>,
}

/// What has to be known of a manifest before it can be rewritten.
#[derive(Debug, Clone, PartialEq, Eq)]
pub struct Needs {
    /// The remote URLs of its dependencies, in their order.
    pub remotes: Vec<String>,
    /// The packages that its dependencies stand for, in their order.
    pub packages: Vec<String>,
}

/// Parses a manifest. A text that is not TOML is the only error.
pub fn parse_manifest(text: &str) -> (r: Result<Document, UpdateError>)
    ensures
        match r {
            Ok(doc) => parsed_manifest(text@) == Some(manifest_of(doc)),
            Err(error) => parsed_manifest(text@) is None && error@ is InvalidManifest,
        },
{
    match parse_document(text) {
        Ok(doc) => Ok(doc),
        Err(error) => Err(UpdateError::InvalidManifest(error_text(&error))),
    }
}

/// Handle a given `Cargo.toml`.
///
/// This means scanning all dependencies and rewrite the requested onces.
/// `text` is what the file holds, and the result holds what is to be
/// written in its place: the text of the document that `text` parses to,
/// with its dependencies rewritten and all else as it was. A manifest
/// without dependencies comes back as its parser writes it out. A text
/// that is not TOML is the only error.
pub fn handle_toml_file(text: &str, rewrite: &Rewrite, key: &Key, facts: &Facts) -> (r: Result<
    Rewritten,
    UpdateError,
>)
    ensures
        match r {
            Ok(out) => {
                &&& parsed_manifest(text@) is Some
                &&& errors_view(out.failures@) == failures_of(
                    parsed_manifest(text@)->0.entries(),
                    key@,
                    facts@,
                )
                &&& exists|doc: Document|
                    #[trigger] document_text(doc) == out.text@ && is_rewrite_of(
                        manifest_of(doc),
                        parsed_manifest(text@)->0,
                        rewrite@,
                        key@,
                        facts@,
                    )
                &&& holds_no_dependency(parsed_manifest(text@)->0.entries()) ==> out.text@
                    == parsed_manifest(text@)->0.text
            },
            Err(error) => parsed_manifest(text@) is None && error@ is InvalidManifest,
        },
{
    let mut doc = match parse_manifest(text) {
        Ok(doc) => doc,
        Err(error) => {
            return Err(error);
        },
    };
    let failures = rewrite_document(&mut doc, rewrite, key, facts);
    let text = document_string(&doc);
    Ok(Rewritten { text, failures })
}

/// What has to be known before the manifest `text` can be rewritten: the
/// remote URL of every dependency that has one, and the package of every
/// dependency. A text that is not TOML is the only error.
pub fn manifest_needs(text: &str) -> (r: Result<Needs, UpdateError>)
    ensures
        match r {
            Ok(needs) => {
                &&& parsed_manifest(text@) is Some
                &&& texts_view(needs.remotes@) == remotes_of(parsed_manifest(text@)->0.entries())
                &&& texts_view(needs.packages@) == packages_of(parsed_manifest(text@)->0.entries())
            },
            Err(error) => parsed_manifest(text@) is None && error@ is InvalidManifest,
        },
{
    let mut doc = match parse_manifest(text) {
        Ok(doc) => doc,
        Err(error) => {
            return Err(error);
        },
    };
    let ghost initial = doc;
    let ghost before = document_entries(doc);
    let slots = inline_entries(&doc);
    let mut remotes: Vec<String> = Vec::new();
    let mut packages: Vec<String> = Vec::new();
    let mut i: usize = 0;
    assert(before.subrange(0, 0) =~= Seq::empty());
    assert(texts_view(remotes@) =~= Seq::empty());
    assert(texts_view(packages@) =~= Seq::empty());
    while i < slots.len()
        invariant
            i <= slots.len(),
            slots@.len() == before.len(),
            forall|j: int|
                0 <= j < before.len() ==> is_named(#[trigger] before[j], slots@[j].0@, slots@[j].1@),
            before == document_entries(initial),
            holds_fields(before, document_fields(initial)),
            document_keys(doc) == document_keys(initial),
            document_members(doc) == document_members(initial),
            document_fields(doc) == document_fields(initial),
            texts_view(remotes@) == remotes_of(before.subrange(0, i as int)),
            texts_view(packages@) == packages_of(before.subrange(0, i as int)),
        decreases slots.len() - i,
    {
        let ghost entry = before[i as int];
        let ghost grown = before.subrange(0, i + 1);
        assert(grown.drop_last() =~= before.subrange(0, i as int));
        assert(grown.last() == entry);
        let table = slots[i].0.as_str();
        let name = slots[i].1.as_str();
        assert(is_named(entry, table@, name@));
        if contains(table, "dependencies") {
            match inline_table_mut(&mut doc, table, name) {
                Some(dep) => {
                    assert(table_fields(*dep) == entry.fields);
                    match field_text(dep, "git") {
                        Some(url) => {
                            proof {
                                assert(texts_view(remotes@.push(url)) =~= texts_view(remotes@).push(
                                    url@,
                                ));
                            }
                            remotes.push(url);
                        },
                        None => {},
                    }
                    let package = match field_text(dep, "package") {
                        Some(package) => package,
                        None => String::from_str(name),
                    };
                    proof {
                        assert(texts_view(packages@.push(package)) =~= texts_view(packages@).push(
                            package@,
                        ));
                    }
                    packages.push(package);
                },
                None => {},
            }
            assert(document_fields(doc) =~= document_fields(initial));
        }
        i += 1;
    }
    assert(before.subrange(0, i as int) =~= before);
    Ok(Needs { remotes, packages })
}

} // verus!
