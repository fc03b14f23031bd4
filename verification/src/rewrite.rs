//! Rewriting one dependency: which project its remote belongs to, whether
//! the request reaches it, and what its fields become.

use crate::error::UpdateError;
use crate::error::UpdateErrorView;
use crate::facts::Facts;
use crate::facts::FactsView;
use crate::facts::RemoteView;
use crate::facts::repository_of;
use crate::facts::response_for;
use crate::update::Key;
use crate::update::KeyView;
use crate::update::Project;
use crate::update::Rewrite;
use crate::update::RewriteView;
use crate::update::VersionSourceView;
use crate::resolve::get_package_version;
use crate::resolve::version_of;
use crate::table::Field;
use crate::table::field_text;
use crate::table::remove_field;
use crate::table::set_field;
use crate::table::table_fields;
use crate::table::text_at;
use crate::table::written;
use crate::text::same_text;
use toml_edit::InlineTable;
use vstd::prelude::*;
use vstd::string::StringExecFns;

verus! {

/// The project whose repository is called `repository`.
pub open spec fn project_of(repository: Seq<char>) -> Option<Project> {
    if repository == "substrate"@ {
        Some(Project::Substrate)
    } else if repository == "polkadot"@ {
        Some(Project::Polkadot)
    } else if repository == "cumulus"@ {
        Some(Project::Cumulus)
    } else if repository == "grandpa-bridge-gadget"@ {
        Some(Project::Beefy)
    } else {
        None
    }
}

/// The project that the remote `url` belongs to, with `remotes` saying
/// which repository each URL names. A URL that names none, or a repository
/// of no project, belongs to none.
pub open spec fn classified(remotes: Seq<RemoteView>, url: Seq<char>) -> Option<Project> {
    match repository_of(remotes, url) {
        Some(repository) => project_of(repository),
        None => None,
    }
}

/// Whether `rewrite` reaches a dependency of `project`.
pub open spec fn reaches(rewrite: RewriteView, project: Option<Project>) -> bool {
    match rewrite {
        RewriteView::All => true,
        RewriteView::Only(wanted, _) => project == Some(wanted),
    }
}

/// The remote URL that `rewrite` moves dependencies to, if any.
pub open spec fn replacement_of(rewrite: RewriteView) -> Option<Seq<char>> {
    match rewrite {
        RewriteView::All => None,
        RewriteView::Only(_, git) => git,
    }
}

/// The field that `key` sets.
pub open spec fn field_of(key: KeyView) -> Seq<char> {
    match key {
        KeyView::Tag(_) => "tag"@,
        KeyView::Branch(_) => "branch"@,
        KeyView::Rev(_) => "rev"@,
        KeyView::Version(_) => "version"@,
    }
}

/// The reference that a key other than a version sets.
pub open spec fn reference_of(key: KeyView) -> Seq<char> {
    match key {
        KeyView::Tag(tag) => tag,
        KeyView::Branch(branch) => branch,
        KeyView::Rev(rev) => rev,
        KeyView::Version(_) => Seq::empty(),
    }
}

/// `fields` without `tag`, `branch` and `rev`.
pub open spec fn without_reference(fields: Map<Seq<char>, Field>) -> Map<Seq<char>, Field> {
    fields.remove("tag"@).remove("branch"@).remove("rev"@)
}

/// `fields` without `version` and `path`.
pub open spec fn without_version(fields: Map<Seq<char>, Field>) -> Map<Seq<char>, Field> {
    fields.remove("version"@).remove("path"@)
}

/// Whether a rewrite to a git reference changes more of `fields` than
/// taking its old reference away: the dependency has a remote, the remote
/// names a repository, and `rewrite` reaches the project of that one.
pub open spec fn is_reached(
    fields: Map<Seq<char>, Field>,
    rewrite: RewriteView,
    remotes: Seq<RemoteView>,
) -> bool {
    match text_at(fields, "git"@) {
        Some(url) => repository_of(remotes, url) is Some && reaches(rewrite, classified(remotes, url)),
        None => false,
    }
}

/// The fields of a dependency after it was pointed at the git reference
/// `key`.
///
/// `tag`, `branch` and `rev` go in any case. Where the dependency is
/// reached, its remote becomes the one that `rewrite` brings, if it brings
/// one, and the field of `key` is set to its reference.
pub open spec fn with_reference(
    fields: Map<Seq<char>, Field>,
    rewrite: RewriteView,
    key: KeyView,
    remotes: Seq<RemoteView>,
) -> Map<Seq<char>, Field> {
    let cleared = without_reference(fields);
    if is_reached(fields, rewrite, remotes) {
        let moved = match replacement_of(rewrite) {
            Some(git) => cleared.insert("git"@, written(git, " "@, ""@)),
            None => cleared,
        };
        moved.insert(field_of(key), written(reference_of(key), " "@, " "@))
    } else {
        cleared
    }
}

/// The package that a dependency declared as `name` stands for: what its
/// field `package` says, else `name`.
pub open spec fn package_of(fields: Map<Seq<char>, Field>, name: Seq<char>) -> Seq<char> {
    match text_at(fields, "package"@) {
        Some(package) => package,
        None => name,
    }
}

/// The version that `source` gives for the dependency, from what was
/// fetched for its package.
pub open spec fn resolved(
    fields: Map<Seq<char>, Field>,
    name: Seq<char>,
    source: VersionSourceView,
    facts: FactsView,
) -> Result<Seq<char>, UpdateErrorView> {
    let package = package_of(fields, name);
    match response_for(facts.responses, package) {
        Some(fetched) => version_of(package, source, fetched),
        None => Err(UpdateErrorView::Unanswered(package)),
    }
}

/// The fields of a dependency after it was set to the version that
/// `source` gives. `version` and `path` go in any case; `version` comes
/// back with the version that was found, if one was.
pub open spec fn with_version(
    fields: Map<Seq<char>, Field>,
    name: Seq<char>,
    source: VersionSourceView,
    facts: FactsView,
) -> Map<Seq<char>, Field> {
    let cleared = without_version(fields);
    match resolved(fields, name, source, facts) {
        Ok(version) => cleared.insert("version"@, written(version, " "@, " "@)),
        Err(_) => cleared,
    }
}

/// The fields of the dependency declared as `name` after the rewrite.
pub open spec fn rewritten(
    fields: Map<Seq<char>, Field>,
    name: Seq<char>,
    rewrite: RewriteView,
    key: KeyView,
    facts: FactsView,
) -> Map<Seq<char>, Field> {
    match key {
        KeyView::Version(source) => with_version(fields, name, source, facts),
        _ => with_reference(fields, rewrite, key, facts.remotes),
    }
}

/// Why the rewrite of the dependency declared as `name` fails, if it does:
/// only a version that cannot be found makes it fail.
pub open spec fn failure_of(
    fields: Map<Seq<char>, Field>,
    name: Seq<char>,
    key: KeyView,
    facts: FactsView,
) -> Option<UpdateErrorView> {
    match key {
        KeyView::Version(source) => match resolved(fields, name, source, facts) {
            Ok(_) => None,
            Err(error) => Some(error),
        },
        _ => None,
    }
}

/// The seven field names that a rewrite reads or writes differ from each
/// other.
pub proof fn field_names_differ()
    ensures
        "tag"@ != "branch"@,
        "tag"@ != "rev"@,
        "tag"@ != "git"@,
        "tag"@ != "version"@,
        "tag"@ != "path"@,
        "tag"@ != "package"@,
        "branch"@ != "rev"@,
        "branch"@ != "git"@,
        "branch"@ != "version"@,
        "branch"@ != "path"@,
        "branch"@ != "package"@,
        "rev"@ != "git"@,
        "rev"@ != "version"@,
        "rev"@ != "path"@,
        "rev"@ != "package"@,
        "git"@ != "version"@,
        "git"@ != "path"@,
        "git"@ != "package"@,
        "version"@ != "path"@,
        "version"@ != "package"@,
        "path"@ != "package"@,
{
    reveal_strlit("tag");
    reveal_strlit("branch");
    reveal_strlit("rev");
    reveal_strlit("git");
    reveal_strlit("version");
    reveal_strlit("path");
    reveal_strlit("package");
    assert("tag"@[0] != "rev"@[0]);
    assert("tag"@[0] != "git"@[0]);
    assert("rev"@[0] != "git"@[0]);
    assert("version"@[0] != "package"@[0]);
    assert("branch"@.len() != "path"@.len());
    assert("path"@.len() != "package"@.len());
}

/// The project whose repository is called `repository`.
pub fn project_named(repository: &str) -> (r: Option<Project>)
    ensures
        r == project_of(repository@),
{
    if same_text(repository, "substrate") {
        Some(Project::Substrate)
    } else if same_text(repository, "polkadot") {
        Some(Project::Polkadot)
    } else if same_text(repository, "cumulus") {
        Some(Project::Cumulus)
    } else if same_text(repository, "grandpa-bridge-gadget") {
        Some(Project::Beefy)
    } else {
        None
    }
}

/// The project that the remote `remote_url` belongs to, as far as `facts`
/// knows the repository it names.
pub fn classify(remote_url: &str, facts: &Facts) -> (r: Option<Project>)
    ensures
        r == classified(facts@.remotes, remote_url@),
{
    match facts.repository(remote_url) {
        Some(repository) => project_named(repository.as_str()),
        None => None,
    }
}

impl Rewrite {
    /// Whether this request reaches a dependency of `project`.
    pub fn reaches(&self, project: Option<Project>) -> (r: bool)
        ensures
            r == reaches(self@, project),
    {
        match self {
            Rewrite::All => true,
            Rewrite::Substrate(_) => matches!(project, Some(Project::Substrate)),
            Rewrite::Polkadot(_) => matches!(project, Some(Project::Polkadot)),
            Rewrite::Cumulus(_) => matches!(project, Some(Project::Cumulus)),
            Rewrite::Beefy(_) => matches!(project, Some(Project::Beefy)),
        }
    }

    /// The remote URL that this request moves dependencies to, if any.
    pub fn replacement(&self) -> (r: Option<&String>)
        ensures
            match r {
                Some(git) => replacement_of(self@) == Some(git@),
                None => replacement_of(self@) is None,
            },
    {
        match self {
            Rewrite::All => None,
            Rewrite::Substrate(git) | Rewrite::Polkadot(git) | Rewrite::Cumulus(git) | Rewrite::Beefy(
                git,
            ) => match git {
                Some(url) => Some(url),
                None => None,
            },
        }
    }
}

/// Handle a given dependency.
///
/// This directly modifies the given `dep` in the requested way. `facts`
/// holds what is known of its remote and what was fetched for its package.
/// A dependency that the request does not reach is no failure.
pub fn handle_dependency(
    name: &str,
    dep: &mut InlineTable,
    rewrite: &Rewrite,
    key: &Key,
    facts: &Facts,
) -> (r: Result<(), UpdateError>)
    ensures
        table_fields(*final(dep)) == rewritten(
            table_fields(*old(dep)),
            name@,
            rewrite@,
            key@,
            facts@,
        ),
        match r {
            Ok(_) => failure_of(table_fields(*old(dep)), name@, key@, facts@) is None,
            Err(error) => failure_of(table_fields(*old(dep)), name@, key@, facts@) == Some(error@),
        },
{
    match key {
        Key::Version(source) => {
            remove_field(dep, "version");
            remove_field(dep, "path");
            proof {
                field_names_differ();
            }
            let package = match field_text(dep, "package") {
                Some(package) => package,
                None => String::from_str(name),
            };
            let fetched = match facts.response(package.as_str()) {
                Some(fetched) => fetched,
                None => {
                    return Err(UpdateError::Unanswered(package));
                },
            };
            let version = match get_package_version(package.as_str(), source, fetched) {
                Ok(version) => version,
                Err(error) => {
                    return Err(error);
                },
            };
            set_field(dep, "version", version.as_str(), " ", " ");
            Ok(())
        },
        _ => {
            remove_field(dep, "tag");
            remove_field(dep, "branch");
            remove_field(dep, "rev");
            proof {
                field_names_differ();
            }
            let git = match field_text(dep, "git") {
                Some(git) => git,
                None => {
                    return Ok(());
                },
            };
            let repository = match facts.repository(git.as_str()) {
                Some(repository) => repository,
                None => {
                    return Ok(());
                },
            };
            if !rewrite.reaches(project_named(repository.as_str())) {
                return Ok(());
            }
            match rewrite.replacement() {
                Some(new_git) => {
                    set_field(dep, "git", new_git.as_str(), " ", "");
                },
                None => {},
            }
            match key {
                Key::Tag(tag) => {
                    set_field(dep, "tag", tag.as_str(), " ", " ");
                },
                Key::Branch(branch) => {
                    set_field(dep, "branch", branch.as_str(), " ", " ");
                },
                Key::Rev(rev) => {
                    set_field(dep, "rev", rev.as_str(), " ", " ");
                },
                Key::Version(_) => {},
            }
            Ok(())
        },
    }
}

} // verus!
