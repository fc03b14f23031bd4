//! What a rewrite is asked to do: which dependencies it reaches and what it
//! sets in them.

use crate::error::UpdateError;
use crate::error::UpdateErrorView;
use crate::text::same_text;
use crate::text::starts_with;
use crate::text::text_of;
use std::path::PathBuf;
use vstd::prelude::*;

verus! {

#[verifier::external_type_specification]
#[verifier::external_body]
pub struct ExPathBuf(PathBuf);

/// One of the four upstream projects.
#[derive(Debug, Clone, Copy, PartialEq, Eq, Structural)]
pub enum Project {
    Substrate,
    Polkadot,
    Cumulus,
    Beefy,
}

/// Which dependencies should be rewritten? A project may come with the
/// remote URL that its dependencies are moved to.
#[derive(Debug, Clone, PartialEq, Eq)]
pub enum Rewrite {
    All,
    Substrate(Option<String>),
    Polkadot(Option<String>),
    Cumulus(Option<String>),
    Beefy(Option<String>),
}

/// A `Rewrite` as a mathematical value.
pub enum RewriteView {
    All,
    Only(Project, Option<Seq<char>>),
}

impl View for Rewrite {
    type V = RewriteView;

    open spec fn view(&self) -> RewriteView {
        match self {
            Rewrite::All => RewriteView::All,
            Rewrite::Substrate(git) => RewriteView::Only(Project::Substrate, text_of(*git)),
            Rewrite::Polkadot(git) => RewriteView::Only(Project::Polkadot, text_of(*git)),
            Rewrite::Cumulus(git) => RewriteView::Only(Project::Cumulus, text_of(*git)),
            Rewrite::Beefy(git) => RewriteView::Only(Project::Beefy, text_of(*git)),
        }
    }
}

/// The different sources `Version` can be generated from.
#[derive(Debug, Clone, PartialEq, Eq)]
pub enum VersionSource {
    /// The newest version that the registry knows.
    CratesIO,
    /// A lockfile behind a URL.
    Url(String),
    /// A lockfile on disk.
    File(String),
}

/// A `VersionSource` as a mathematical value.
pub enum VersionSourceView {
    CratesIO,
    Url(Seq<char>),
    File(Seq<char>),
}

impl View for VersionSource {
    type V = VersionSourceView;

    open spec fn view(&self) -> VersionSourceView {
        match self {
            VersionSource::CratesIO => VersionSourceView::CratesIO,
            VersionSource::Url(url) => VersionSourceView::Url(url@),
            VersionSource::File(path) => VersionSourceView::File(path@),
        }
    }
}

/// The version the dependencies should be switched to.
#[derive(Debug, Clone, PartialEq, Eq)]
pub enum Key {
    Tag(String),
    Branch(String),
    Rev(String),
    Version(VersionSource),
}

/// A `Key` as a mathematical value.
pub enum KeyView {
    Tag(Seq<char>),
    Branch(Seq<char>),
    Rev(Seq<char>),
    Version(VersionSourceView),
}

impl View for Key {
    type V = KeyView;

    open spec fn view(&self) -> KeyView {
        match self {
            Key::Tag(tag) => KeyView::Tag(tag@),
            Key::Branch(branch) => KeyView::Branch(branch@),
            Key::Rev(rev) => KeyView::Rev(rev@),
            Key::Version(source) => KeyView::Version(source@),
        }
    }
}

/// The final component of `path`, as `std::path::Path` reads paths on the
/// platform the crate is built for; `None` where the path has none.
pub uninterp spec fn path_file_name(path: Seq<char>) -> Option<Seq<char>>;

/// `std::path::Path::file_name` on `path`. The contract gives the result
/// its name and claims nothing else of it.
#[verifier::external_body]
fn file_name(path: &str) -> (r: Option<String>)
    ensures
        text_of(r) == path_file_name(path@),
{
    std::path::Path::new(path).file_name().map(|name| name.to_string_lossy().into_owned())
}

/// The source that `version` names, where the final component of `version`
/// read as a path is `file_name` and `exists` says whether that path exists.
///
/// A URL over HTTP or HTTPS is a remote lockfile, an existing path named
/// `Cargo.lock` a local one, and `latest` the registry.
pub open spec fn version_source_of(
    version: Seq<char>,
    file_name: Option<Seq<char>>,
    exists: bool,
) -> Result<VersionSourceView, UpdateErrorView> {
    if "http://"@.is_prefix_of(version) || "https://"@.is_prefix_of(version) {
        Ok(VersionSourceView::Url(version))
    } else if exists && file_name == Some("Cargo.lock"@) {
        Ok(VersionSourceView::File(version))
    } else if version == "latest"@ {
        Ok(VersionSourceView::CratesIO)
    } else {
        Err(UpdateErrorView::InvalidVersionSource(version))
    }
}

/// `result` as a mathematical value.
pub open spec fn source_result_view(result: Result<VersionSource, UpdateError>) -> Result<
    VersionSourceView,
    UpdateErrorView,
> {
    match result {
        Ok(source) => Ok(source@),
        Err(error) => Err(error@),
    }
}

/// The source that `version` names, from the final component of `version`
/// read as a path and from whether that path exists.
pub fn version_source_from(version: &String, file_name: &Option<String>, exists: bool) -> (r:
    Result<VersionSource, UpdateError>)
    ensures
        source_result_view(r) == version_source_of(version@, text_of(*file_name), exists),
{
    if starts_with(version.as_str(), "http://") || starts_with(version.as_str(), "https://") {
        return Ok(VersionSource::Url(version.clone()));
    }
    let named_lockfile = match file_name {
        Some(name) => same_text(name.as_str(), "Cargo.lock"),
        None => false,
    };
    if exists && named_lockfile {
        Ok(VersionSource::File(version.clone()))
    } else if same_text(version.as_str(), "latest") {
        Ok(VersionSource::CratesIO)
    } else {
        Err(UpdateError::InvalidVersionSource(version.clone()))
    }
}

/// The source that `version` names; `exists` says whether `version`, read
/// as a path, exists on disk.
pub fn get_version_source(version: &String, exists: bool) -> (r: Result<VersionSource, UpdateError>)
    ensures
        source_result_view(r) == version_source_of(version@, path_file_name(version@), exists),
{
    let name = file_name(version.as_str());
    version_source_from(version, &name, exists)
}

/// Whether `key` points a dependency at a git reference.
pub fn is_git_source(key: &Key) -> (r: bool)
    ensures
        r == !(key@ is Version),
{
    match key {
        Key::Tag(_) | Key::Branch(_) | Key::Rev(_) => true,
        _ => false,
    }
}

/// `update` subcommand options.
#[derive(Debug)]
pub struct Update {
    /// The path where Diener should search for `Cargo.toml` files.
    pub path: Option<PathBuf>,
    /// Only alter Substrate dependencies.
    pub substrate: bool,
    /// Only alter Polkadot dependencies.
    pub polkadot: bool,
    /// Only alter Cumulus dependencies.
    pub cumulus: bool,
    /// Only alter BEEFY dependencies.
    pub beefy: bool,
    /// Alter polkadot, substrate + beefy dependencies
    pub all: bool,
    /// The `branch` that the dependencies should use.
    pub branch: Option<String>,
    /// The `rev` that the dependencies should use.
    pub rev: Option<String>,
    /// The `tag` that the dependencies should use.
    pub tag: Option<String>,
    /// The `version` source the crates should be updated from.
    pub version: Option<String>,
    /// Rewrite the `git` url to the give one.
    pub git: Option<String>,
}

/// The key that the options ask for: the first of `branch`, `rev`, `tag`
/// and `version` that is given. `source` is what the value of `version`
/// names.
pub open spec fn key_of(
    branch: Option<Seq<char>>,
    rev: Option<Seq<char>>,
    tag: Option<Seq<char>>,
    version: Option<Seq<char>>,
    source: Result<VersionSourceView, UpdateErrorView>,
) -> Result<KeyView, UpdateErrorView> {
    if branch is Some {
        Ok(KeyView::Branch(branch->0))
    } else if rev is Some {
        Ok(KeyView::Rev(rev->0))
    } else if tag is Some {
        Ok(KeyView::Tag(tag->0))
    } else if version is Some {
        match source {
            Ok(s) => Ok(KeyView::Version(s)),
            Err(e) => Err(e),
        }
    } else {
        Err(UpdateErrorView::MissingKey)
    }
}

/// How many of the five targets are chosen: the four projects and `--all`.
pub open spec fn targets_chosen(
    all: bool,
    substrate: bool,
    beefy: bool,
    polkadot: bool,
    cumulus: bool,
) -> nat {
    (if all { 1nat } else { 0nat }) + (if substrate { 1nat } else { 0nat }) + (if beefy { 1nat } else { 0nat })
        + (if polkadot { 1nat } else { 0nat }) + (if cumulus { 1nat } else { 0nat })
}

/// The dependencies that the options reach.
///
/// More than one target is refused. `--all` reaches all dependencies, and
/// so does a version, with or without a target beside it; neither takes a
/// new remote URL. Else the one project that is chosen is reached, with the
/// URL if there is one, and no target at all is refused.
pub open spec fn rewrite_of(
    all: bool,
    version: bool,
    substrate: bool,
    beefy: bool,
    polkadot: bool,
    cumulus: bool,
    git: Option<Seq<char>>,
) -> Result<RewriteView, UpdateErrorView> {
    if targets_chosen(all, substrate, beefy, polkadot, cumulus) > 1 {
        Err(UpdateErrorView::SeveralTargets)
    } else if all || version {
        if git is Some {
            Err(UpdateErrorView::GitWithoutProject)
        } else {
            Ok(RewriteView::All)
        }
    } else if substrate {
        Ok(RewriteView::Only(Project::Substrate, git))
    } else if beefy {
        Ok(RewriteView::Only(Project::Beefy, git))
    } else if polkadot {
        Ok(RewriteView::Only(Project::Polkadot, git))
    } else if cumulus {
        Ok(RewriteView::Only(Project::Cumulus, git))
    } else {
        Err(UpdateErrorView::MissingTarget)
    }
}

/// One for a target that is chosen, nothing for one that is not.
fn counted(chosen: bool) -> (r: u8)
    ensures
        r == (if chosen { 1nat } else { 0nat }),
{
    if chosen {
        1
    } else {
        0
    }
}

impl Update {
    /// The key that these options ask for.
    pub open spec fn key(self, file_name: Option<Seq<char>>, exists: bool) -> Result<
        KeyView,
        UpdateErrorView,
    > {
        key_of(
            text_of(self.branch),
            text_of(self.rev),
            text_of(self.tag),
            text_of(self.version),
            match self.version {
                Some(v) => version_source_of(v@, file_name, exists),
                None => Err(UpdateErrorView::MissingKey),
            },
        )
    }

    /// The dependencies that these options reach.
    pub open spec fn rewrite(self) -> Result<RewriteView, UpdateErrorView> {
        rewrite_of(
            self.all,
            self.version is Some,
            self.substrate,
            self.beefy,
            self.polkadot,
            self.cumulus,
            text_of(self.git),
        )
    }

    /// The final component of the value of `--version`, read as a path.
    pub open spec fn version_file_name(self) -> Option<Seq<char>> {
        match self.version {
            Some(v) => path_file_name(v@),
            None => None,
        }
    }

    /// Convert the options into the parts `Rewrite`, `Key`, `Option<PathBuf>`.
    ///
    /// `version_exists` says whether the value of `--version`, read as a
    /// path, exists on disk. A key that cannot be had is reported before a
    /// target that cannot be had, and more than one target before a URL
    /// that has no project to go with.
    pub fn into_parts(self, version_exists: bool) -> (r: Result<
        (Rewrite, Key, Option<PathBuf>),
        UpdateError,
    >)
        ensures
            match r {
                Ok((rewrite, key, path)) => {
                    &&& self.key(self.version_file_name(), version_exists) == Ok::<
                        KeyView,
                        UpdateErrorView,
                    >(key@)
                    &&& self.rewrite() == Ok::<RewriteView, UpdateErrorView>(rewrite@)
                    &&& path == self.path
                },
                Err(error) => match self.key(self.version_file_name(), version_exists) {
                    Err(e) => error@ == e,
                    Ok(_) => self.rewrite() == Err::<RewriteView, UpdateErrorView>(error@),
                },
            },
    {
        let Update { path, substrate, polkadot, cumulus, beefy, all, branch, rev, tag, version, git } =
            self;
        let with_version = version.is_some();
        let key = match branch {
            Some(branch) => Key::Branch(branch),
            None => match rev {
                Some(rev) => Key::Rev(rev),
                None => match tag {
                    Some(tag) => Key::Tag(tag),
                    None => match version {
                        Some(version) => match get_version_source(&version, version_exists) {
                            Ok(source) => Key::Version(source),
                            Err(error) => {
                                return Err(error);
                            },
                        },
                        None => {
                            return Err(UpdateError::MissingKey);
                        },
                    },
                },
            },
        };
        let chosen: u8 = counted(all) + counted(substrate) + counted(beefy) + counted(polkadot)
            + counted(cumulus);
        if chosen > 1 {
            return Err(UpdateError::SeveralTargets);
        }
        let rewrite = if all || with_version {
            if git.is_some() {
                return Err(UpdateError::GitWithoutProject);
            } else {
                Rewrite::All
            }
        } else if substrate {
            Rewrite::Substrate(git)
        } else if beefy {
            Rewrite::Beefy(git)
        } else if polkadot {
            Rewrite::Polkadot(git)
        } else if cumulus {
            Rewrite::Cumulus(git)
        } else {
            return Err(UpdateError::MissingTarget);
        };
        Ok((rewrite, key, path))
    }
}

} // verus!
