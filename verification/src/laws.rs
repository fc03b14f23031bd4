//! What holds of every rewrite of a dependency and of a manifest, proved
//! from the definitions in `rewrite`, `manifest` and `table`.

use crate::facts::FactsView;
use crate::facts::RemoteView;
use crate::facts::repository_of;
use crate::facts::response_for;
use crate::manifest::failures_of;
use crate::manifest::holds_no_dependency;
use crate::manifest::is_dependency_table;
use crate::manifest::packages_of;
use crate::manifest::remotes_of;
use crate::manifest::rewritten_entries;
use crate::manifest::rewritten_entry;
use crate::rewrite::classified;
use crate::rewrite::failure_of;
use crate::rewrite::field_names_differ;
use crate::rewrite::field_of;
use crate::rewrite::is_reached;
use crate::rewrite::package_of;
use crate::rewrite::reaches;
use crate::rewrite::reference_of;
use crate::rewrite::replacement_of;
use crate::rewrite::rewritten;
use crate::rewrite::without_reference;
use crate::rewrite::without_version;
use crate::table::Entry;
use crate::table::Field;
use crate::table::Fields;
use crate::table::Kind;
use crate::table::Members;
use crate::table::table_entries;
use crate::table::text_at;
use crate::table::written;
use crate::update::KeyView;
use crate::update::RewriteView;
use vstd::prelude::*;

verus! {

/// `field` is the same in `before` and `after`: in both with one value, or
/// in neither.
pub open spec fn untouched(
    before: Map<Seq<char>, Field>,
    after: Map<Seq<char>, Field>,
    field: Seq<char>,
) -> bool {
    &&& before.contains_key(field) == after.contains_key(field)
    &&& before.contains_key(field) ==> before[field] == after[field]
}

/// The condition under which a second rewrite reads the first as the first
/// read the manifest: a new remote, where the request brings one, names the
/// repository of the project it is brought for.
pub open spec fn settles(rewrite: RewriteView, key: KeyView, facts: FactsView) -> bool {
    !(key is Version) ==> match replacement_of(rewrite) {
        Some(git) => repository_of(facts.remotes, git) is Some && reaches(
            rewrite,
            classified(facts.remotes, git),
        ),
        None => true,
    }
}

/// A rewrite to a git reference leaves at most one of `tag`, `branch` and
/// `rev`: the one of the key, with the key's reference and a space on
/// either side, and that one exactly where the dependency is reached. It
/// leaves `version`, `path` and `package` as they were.
pub proof fn reference_rewrite_sets_one_field(
    fields: Map<Seq<char>, Field>,
    name: Seq<char>,
    rewrite: RewriteView,
    key: KeyView,
    facts: FactsView,
)
    requires
        !(key is Version),
    ensures
        ({
            let after = rewritten(fields, name, rewrite, key, facts);
            &&& forall|field: Seq<char>|
                field == "tag"@ || field == "branch"@ || field == "rev"@ ==> (after.contains_key(
                    field,
                ) <==> field == field_of(key) && is_reached(fields, rewrite, facts.remotes))
            &&& after.contains_key(field_of(key)) ==> after[field_of(key)] == written(
                reference_of(key),
                " "@,
                " "@,
            )
            &&& untouched(fields, after, "version"@)
            &&& untouched(fields, after, "path"@)
            &&& untouched(fields, after, "package"@)
            &&& failure_of(fields, name, key, facts) is None
        }),
{
    field_names_differ();
}

/// A rewrite to a git reference changes the remote only of a dependency
/// that it reaches, and only where the request brings a new one. The new
/// remote is written with a space before it and nothing after it.
pub proof fn reference_rewrite_moves_remote(
    fields: Map<Seq<char>, Field>,
    name: Seq<char>,
    rewrite: RewriteView,
    key: KeyView,
    facts: FactsView,
)
    requires
        !(key is Version),
    ensures
        ({
            let after = rewritten(fields, name, rewrite, key, facts);
            if is_reached(fields, rewrite, facts.remotes) && replacement_of(rewrite) is Some {
                after.contains_key("git"@) && after["git"@] == written(
                    replacement_of(rewrite)->0,
                    " "@,
                    ""@,
                )
            } else {
                untouched(fields, after, "git"@)
            }
        }),
{
    field_names_differ();
}

/// A rewrite to a version takes `path` away and leaves `git`, `tag`,
/// `branch`, `rev` and `package` as they were. `version` is there
/// afterwards exactly where a version was found, and then holds it with a
/// space on either side.
pub proof fn version_rewrite_keeps_git_fields(
    fields: Map<Seq<char>, Field>,
    name: Seq<char>,
    rewrite: RewriteView,
    key: KeyView,
    facts: FactsView,
)
    requires
        key is Version,
    ensures
        ({
            let after = rewritten(fields, name, rewrite, key, facts);
            &&& !after.contains_key("path"@)
            &&& untouched(fields, after, "git"@)
            &&& untouched(fields, after, "tag"@)
            &&& untouched(fields, after, "branch"@)
            &&& untouched(fields, after, "rev"@)
            &&& untouched(fields, after, "package"@)
            &&& after.contains_key("version"@) <==> failure_of(fields, name, key, facts) is None
            &&& after.contains_key("version"@) ==> after["version"@].text is Some
                && after["version"@].prefix == Some(" "@) && after["version"@].suffix == Some(" "@)
        }),
{
    field_names_differ();
}

/// A rewrite touches no field but the seven it knows by name.
pub proof fn rewrite_keeps_other_fields(
    fields: Map<Seq<char>, Field>,
    name: Seq<char>,
    rewrite: RewriteView,
    key: KeyView,
    facts: FactsView,
    field: Seq<char>,
)
    requires
        field != "tag"@,
        field != "branch"@,
        field != "rev"@,
        field != "git"@,
        field != "version"@,
        field != "path"@,
    ensures
        untouched(fields, rewritten(fields, name, rewrite, key, facts), field),
{
}

/// A rewrite to a git reference that names one project leaves a
/// dependency of another project, or of none, with nothing changed but its
/// old reference taken away. Where it had no `tag`, `branch` or `rev`, it
/// is as it was.
pub proof fn other_projects_are_left_alone(
    fields: Map<Seq<char>, Field>,
    name: Seq<char>,
    rewrite: RewriteView,
    key: KeyView,
    facts: FactsView,
)
    requires
        !(key is Version),
        match text_at(fields, "git"@) {
            Some(url) => !reaches(rewrite, classified(facts.remotes, url)),
            None => true,
        },
    ensures
        rewritten(fields, name, rewrite, key, facts) == without_reference(fields),
        !fields.contains_key("tag"@) && !fields.contains_key("branch"@) && !fields.contains_key(
            "rev"@,
        ) ==> rewritten(fields, name, rewrite, key, facts) == fields,
{
    field_names_differ();
    if !fields.contains_key("tag"@) && !fields.contains_key("branch"@) && !fields.contains_key(
        "rev"@,
    ) {
        assert(without_reference(fields) =~= fields);
    }
}

/// A rewrite of all dependencies to a git reference sets the reference in
/// every dependency whose remote names a repository, whatever project that
/// is, and keeps its remote. A dependency without a remote only loses its
/// old reference.
pub proof fn all_reaches_every_remote(
    fields: Map<Seq<char>, Field>,
    name: Seq<char>,
    key: KeyView,
    facts: FactsView,
)
    requires
        !(key is Version),
    ensures
        ({
            let after = rewritten(fields, name, RewriteView::All, key, facts);
            match text_at(fields, "git"@) {
                Some(url) => repository_of(facts.remotes, url) is Some ==> {
                    &&& after.contains_key(field_of(key))
                    &&& after[field_of(key)] == written(reference_of(key), " "@, " "@)
                    &&& untouched(fields, after, "git"@)
                },
                None => after == without_reference(fields),
            }
        }),
{
    field_names_differ();
}

/// Rewriting a dependency twice in the same way leaves what rewriting it
/// once leaves, and fails in the same way.
///
/// Where the request moves a dependency that it reaches to a new remote,
/// this is said only of a new remote that itself names that project's
/// repository: the second rewrite reads the remote that the first one
/// wrote.
pub proof fn rewrite_twice_is_rewrite_once(
    fields: Map<Seq<char>, Field>,
    name: Seq<char>,
    rewrite: RewriteView,
    key: KeyView,
    facts: FactsView,
)
    requires
        settles(rewrite, key, facts) || !is_reached(fields, rewrite, facts.remotes),
    ensures
        rewritten(rewritten(fields, name, rewrite, key, facts), name, rewrite, key, facts)
            == rewritten(fields, name, rewrite, key, facts),
        failure_of(rewritten(fields, name, rewrite, key, facts), name, key, facts) == failure_of(
            fields,
            name,
            key,
            facts,
        ),
{
    field_names_differ();
    let once = rewritten(fields, name, rewrite, key, facts);
    let twice = rewritten(once, name, rewrite, key, facts);
    match key {
        KeyView::Version(source) => {
            assert(without_version(once) =~= without_version(fields));
            assert(twice =~= once);
        },
        _ => {
            let cleared = without_reference(fields);
            if is_reached(fields, rewrite, facts.remotes) {
                let moved = match replacement_of(rewrite) {
                    Some(git) => cleared.insert("git"@, written(git, " "@, ""@)),
                    None => cleared,
                };
                assert(without_reference(once) =~= moved);
                assert(is_reached(once, rewrite, facts.remotes));
                assert(twice =~= once);
            } else {
                assert(without_reference(once) =~= cleared);
                assert(twice =~= once);
            }
        },
    }
}

/// Rewriting a manifest twice in the same way leaves the dependencies that
/// rewriting it once leaves, with the same failures.
pub proof fn manifest_twice_is_manifest_once(
    entries: Seq<Entry>,
    rewrite: RewriteView,
    key: KeyView,
    facts: FactsView,
)
    requires
        forall|i: int|
            0 <= i < entries.len() && is_dependency_table((#[trigger] entries[i]).table) ==> settles(
                rewrite,
                key,
                facts,
            ) || !is_reached(entries[i].fields, rewrite, facts.remotes),
    ensures
        rewritten_entries(rewritten_entries(entries, rewrite, key, facts), rewrite, key, facts)
            == rewritten_entries(entries, rewrite, key, facts),
        failures_of(rewritten_entries(entries, rewrite, key, facts), key, facts) == failures_of(
            entries,
            key,
            facts,
        ),
    decreases entries.len(),
{
    let once = rewritten_entries(entries, rewrite, key, facts);
    let twice = rewritten_entries(once, rewrite, key, facts);
    assert forall|i: int| 0 <= i < entries.len() implies twice[i] == once[i] by {
        if is_dependency_table(entries[i].table) {
            rewrite_twice_is_rewrite_once(entries[i].fields, entries[i].name, rewrite, key, facts);
        }
    }
    assert(twice =~= once);
    if entries.len() > 0 {
        let last = entries.last();
        assert forall|i: int|
            0 <= i < entries.drop_last().len() && is_dependency_table(
                (#[trigger] entries.drop_last()[i]).table,
            ) implies settles(rewrite, key, facts) || !is_reached(
            entries.drop_last()[i].fields,
            rewrite,
            facts.remotes,
        ) by {
            assert(entries.drop_last()[i] == entries[i]);
        }
        manifest_twice_is_manifest_once(entries.drop_last(), rewrite, key, facts);
        if is_dependency_table(last.table) {
            rewrite_twice_is_rewrite_once(last.fields, last.name, rewrite, key, facts);
        }
        assert(once.drop_last() =~= rewritten_entries(entries.drop_last(), rewrite, key, facts));
        assert(once.last() == rewritten_entry(last, rewrite, key, facts));
    }
}

/// A manifest that holds no dependencies has none rewritten and none that
/// fails.
pub proof fn nothing_to_rewrite(
    entries: Seq<Entry>,
    rewrite: RewriteView,
    key: KeyView,
    facts: FactsView,
)
    requires
        holds_no_dependency(entries),
    ensures
        rewritten_entries(entries, rewrite, key, facts) == entries,
        failures_of(entries, key, facts).len() == 0,
    decreases entries.len(),
{
    assert(rewritten_entries(entries, rewrite, key, facts) =~= entries);
    if entries.len() > 0 {
        nothing_to_rewrite(entries.drop_last(), rewrite, key, facts);
    }
}

/// `remotes` says something of `url`.
pub open spec fn is_listed(remotes: Seq<RemoteView>, url: Seq<char>) -> bool {
    exists|j: int| 0 <= j < remotes.len() && (#[trigger] remotes[j]).url == url
}

/// `remotes` says of `url` that it could not be parsed.
pub open spec fn is_unparsed(remotes: Seq<RemoteView>, url: Seq<char>) -> bool {
    exists|j: int| 0 <= j < remotes.len() && (#[trigger] remotes[j]).url == url && remotes[j].name is None
}

/// `facts` says something of each of `urls`.
pub open spec fn names_all(facts: FactsView, urls: Seq<Seq<char>>) -> bool {
    forall|i: int| 0 <= i < urls.len() ==> is_listed(facts.remotes, #[trigger] urls[i])
}

/// `facts` holds what was fetched for each of `packages`.
pub open spec fn answers_all(facts: FactsView, packages: Seq<Seq<char>>) -> bool {
    forall|i: int|
        0 <= i < packages.len() ==> response_for(facts.responses, #[trigger] packages[i]) is Some
}

/// A remote that is listed names no repository only where it is listed as
/// one that could not be parsed.
pub proof fn listed_remote_is_read(remotes: Seq<RemoteView>, url: Seq<char>)
    requires
        is_listed(remotes, url),
        repository_of(remotes, url) is None,
    ensures
        is_unparsed(remotes, url),
    decreases remotes.len(),
{
    if remotes.len() > 0 {
        if remotes[0].url == url {
            assert(remotes[0].name is None);
        } else {
            let rest = remotes.drop_first();
            let j = choose|j: int| 0 <= j < remotes.len() && (#[trigger] remotes[j]).url == url;
            assert(rest[j - 1] == remotes[j]);
            listed_remote_is_read(rest, url);
            let k = choose|k: int|
                0 <= k < rest.len() && (#[trigger] rest[k]).url == url && rest[k].name is None;
            assert(remotes[k + 1] == rest[k]);
        }
    }
}

/// The remote of every dependency is among the remotes that the manifest
/// needs, and its package among the packages.
pub proof fn needs_hold_every_dependency(entries: Seq<Entry>, at: int)
    requires
        0 <= at < entries.len(),
        is_dependency_table(entries[at].table),
    ensures
        packages_of(entries).contains(package_of(entries[at].fields, entries[at].name)),
        text_at(entries[at].fields, "git"@) matches Some(url) ==> remotes_of(entries).contains(url),
    decreases entries.len(),
{
    let earlier = entries.drop_last();
    if at < entries.len() - 1 {
        needs_hold_every_dependency(earlier, at);
        assert(earlier[at] == entries[at]);
        let package = package_of(entries[at].fields, entries[at].name);
        let p = choose|p: int| 0 <= p < packages_of(earlier).len() && packages_of(earlier)[p] == package;
        assert(packages_of(entries)[p] == package);
        if text_at(entries[at].fields, "git"@) is Some {
            let url = text_at(entries[at].fields, "git"@)->0;
            let u = choose|u: int| 0 <= u < remotes_of(earlier).len() && remotes_of(earlier)[u] == url;
            assert(remotes_of(entries)[u] == url);
        }
    } else {
        assert(entries.last() == entries[at]);
        assert(packages_of(entries).last() == package_of(entries[at].fields, entries[at].name));
        if text_at(entries[at].fields, "git"@) is Some {
            assert(remotes_of(entries).last() == text_at(entries[at].fields, "git"@)->0);
        }
    }
}

/// Where `facts` holds what was fetched for every package that the
/// manifest needs, no dependency fails for want of an answer.
pub proof fn answered_needs_leave_no_gap(entries: Seq<Entry>, key: KeyView, facts: FactsView)
    requires
        answers_all(facts, packages_of(entries)),
    ensures
        forall|i: int|
            0 <= i < failures_of(entries, key, facts).len() ==> !(#[trigger] failures_of(
                entries,
                key,
                facts,
            )[i] is Unanswered),
    decreases entries.len(),
{
    if entries.len() > 0 {
        let earlier = entries.drop_last();
        assert forall|i: int| 0 <= i < packages_of(earlier).len() implies response_for(
            facts.responses,
            #[trigger] packages_of(earlier)[i],
        ) is Some by {
            assert(packages_of(entries)[i] == packages_of(earlier)[i]);
        }
        answered_needs_leave_no_gap(earlier, key, facts);
        let last = entries.last();
        if is_dependency_table(last.table) {
            needs_hold_every_dependency(entries, entries.len() - 1);
            let package = package_of(last.fields, last.name);
            let p = choose|p: int|
                0 <= p < packages_of(entries).len() && packages_of(entries)[p] == package;
            assert(response_for(facts.responses, packages_of(entries)[p]) is Some);
        }
    }
}

/// Where `facts` says something of every remote that the manifest needs,
/// a rewrite to a git reference passes over a dependency with a remote
/// only where the request does not reach its project, or where the remote
/// could not be parsed.
pub proof fn named_remotes_are_reached(
    entries: Seq<Entry>,
    rewrite: RewriteView,
    facts: FactsView,
    at: int,
)
    requires
        names_all(facts, remotes_of(entries)),
        0 <= at < entries.len(),
        is_dependency_table(entries[at].table),
        text_at(entries[at].fields, "git"@) is Some,
    ensures
        ({
            let url = text_at(entries[at].fields, "git"@)->0;
            ||| is_reached(entries[at].fields, rewrite, facts.remotes)
            ||| is_unparsed(facts.remotes, url)
            ||| repository_of(facts.remotes, url) is Some && !reaches(
                rewrite,
                classified(facts.remotes, url),
            )
        }),
{
    let url = text_at(entries[at].fields, "git"@)->0;
    needs_hold_every_dependency(entries, at);
    let u = choose|u: int| 0 <= u < remotes_of(entries).len() && remotes_of(entries)[u] == url;
    assert(is_listed(facts.remotes, remotes_of(entries)[u]));
    if repository_of(facts.remotes, url) is None {
        listed_remote_is_read(facts.remotes, url);
    }
}

/// The entries of a table are its items that are inline tables, each once
/// and in the order of the items: an item of any other kind is no entry,
/// and so is never rewritten.
pub proof fn entries_are_the_inline_tables(table: Seq<char>, members: Members, fields: Fields)
    ensures
        forall|i: int|
            0 <= i < table_entries(table, members, fields).len() ==> {
                let entry = #[trigger] table_entries(table, members, fields)[i];
                &&& entry.table == table
                &&& members.contains((entry.name, Kind::InlineTable))
            },
        forall|j: int|
            0 <= j < members.len() && (#[trigger] members[j]).1 == Kind::InlineTable ==> exists|i: int|
                0 <= i < table_entries(table, members, fields).len() && (#[trigger] table_entries(
                    table,
                    members,
                    fields,
                )[i]).name == members[j].0,
    decreases members.len(),
{
    let entries = table_entries(table, members, fields);
    if members.len() > 0 {
        let earlier = table_entries(table, members.drop_last(), fields);
        entries_are_the_inline_tables(table, members.drop_last(), fields);
        assert forall|i: int| 0 <= i < entries.len() implies (#[trigger] entries[i]).table == table
            && members.contains((entries[i].name, Kind::InlineTable)) by {
            if i < earlier.len() {
                assert(entries[i] == earlier[i]);
                let j = choose|j: int|
                    0 <= j < members.drop_last().len() && members.drop_last()[j] == (
                        earlier[i].name,
                        Kind::InlineTable,
                    );
                assert(members[j] == members.drop_last()[j]);
            } else {
                assert(members[members.len() - 1] == (entries[i].name, Kind::InlineTable));
            }
        }
        assert forall|j: int|
            0 <= j < members.len() && (#[trigger] members[j]).1 == Kind::InlineTable implies exists|
            i: int,
        |
            0 <= i < entries.len() && (#[trigger] entries[i]).name == members[j].0 by {
            if j < members.len() - 1 {
                assert(members.drop_last()[j] == members[j]);
                let i = choose|i: int|
                    0 <= i < earlier.len() && (#[trigger] earlier[i]).name == members.drop_last()[j].0;
                assert(entries[i] == earlier[i]);
            } else {
                assert(entries[entries.len() - 1].name == members[j].0);
            }
        }
    }
}

} // verus!
