//! The failures of a rewrite, each with the message shown for it.

use vstd::prelude::*;
use vstd::string::StringExecFns;

verus! {

/// Why a request was refused or a dependency could not be rewritten.
#[derive(Debug, Clone, PartialEq, Eq)]
pub enum UpdateError {
    /// None of `--branch`, `--tag`, `--rev` and `--version` was given.
    MissingKey,
    /// `--git` was given without one of the four projects.
    GitWithoutProject,
    /// Neither a project nor `--all` was given.
    MissingTarget,
    /// More than one of the four projects and `--all` was given.
    SeveralTargets,
    /// The value of `--version` names no source of versions.
    InvalidVersionSource(String),
    /// The manifest is not a TOML document; holds the parser's message.
    InvalidManifest(String),
    /// The registry's answer is not JSON; holds the answer.
    InvalidRegistryResponse(String),
    /// The registry's answer names no newest version for the package.
    NotOnRegistry(String),
    /// The lockfile holds no record of the package with a version.
    NotInLockfile(String),
    /// The answer for the package could not be fetched; holds the reason.
    FetchFailed(String),
    /// No answer was handed over for the package.
    Unanswered(String),
}

/// An `UpdateError` as a mathematical value.
pub enum UpdateErrorView {
    MissingKey,
    GitWithoutProject,
    MissingTarget,
    SeveralTargets,
    InvalidVersionSource(Seq<char>),
    InvalidManifest(Seq<char>),
    InvalidRegistryResponse(Seq<char>),
    NotOnRegistry(Seq<char>),
    NotInLockfile(Seq<char>),
    FetchFailed(Seq<char>),
    Unanswered(Seq<char>),
}

impl View for UpdateError {
    type V = UpdateErrorView;

    open spec fn view(&self) -> UpdateErrorView {
        match self {
            UpdateError::MissingKey => UpdateErrorView::MissingKey,
            UpdateError::GitWithoutProject => UpdateErrorView::GitWithoutProject,
            UpdateError::MissingTarget => UpdateErrorView::MissingTarget,
            UpdateError::SeveralTargets => UpdateErrorView::SeveralTargets,
            UpdateError::InvalidVersionSource(s) => UpdateErrorView::InvalidVersionSource(s@),
            UpdateError::InvalidManifest(s) => UpdateErrorView::InvalidManifest(s@),
            UpdateError::InvalidRegistryResponse(s) => UpdateErrorView::InvalidRegistryResponse(s@),
            UpdateError::NotOnRegistry(s) => UpdateErrorView::NotOnRegistry(s@),
            UpdateError::NotInLockfile(s) => UpdateErrorView::NotInLockfile(s@),
            UpdateError::FetchFailed(s) => UpdateErrorView::FetchFailed(s@),
            UpdateError::Unanswered(s) => UpdateErrorView::Unanswered(s@),
        }
    }
}

/// The message shown for `error`.
pub open spec fn message_of(error: UpdateErrorView) -> Seq<char> {
    match error {
        UpdateErrorView::MissingKey => "You need to pass `--branch`, `--tag`, `--rev` or `--version`."@,
        UpdateErrorView::GitWithoutProject => "You need to pass `--substrate`, `--polkadot`, `--cumulus` or `--beefy` for `--git`."@,
        UpdateErrorView::MissingTarget => "You must specify one of `--substrate`, `--polkadot`, `--cumulus`, `--beefy` or `--all`."@,
        UpdateErrorView::SeveralTargets => "You must specify only one of `--substrate`, `--polkadot`, `--cumulus`, `--beefy` or `--all`."@,
        UpdateErrorView::InvalidVersionSource(v) => "Invalid 'version' source: "@ + v,
        UpdateErrorView::InvalidManifest(m) => m,
        UpdateErrorView::InvalidRegistryResponse(b) => "error trying to JSON parse the crates.io response: "@ + b,
        UpdateErrorView::NotOnRegistry(p) => "package '"@ + p + "' not found on crates.io"@,
        UpdateErrorView::NotInLockfile(p) => "package '"@ + p + "' not found in Cargo.lock"@,
        UpdateErrorView::FetchFailed(m) => m,
        UpdateErrorView::Unanswered(p) => "no answer for package '"@ + p + "'"@,
    }
}

/// `head`, `middle` and `tail` in one string.
fn joined(head: &str, middle: &str, tail: &str) -> (r: String)
    ensures
        r@ == head@ + middle@ + tail@,
{
    let mut r = String::from_str(head);
    r.append(middle);
    r.append(tail);
    r
}

impl UpdateError {
    /// The message shown for this error.
    pub fn message(&self) -> (r: String)
        ensures
            r@ == message_of(self@),
    {
        match self {
            UpdateError::MissingKey => String::from_str(
                "You need to pass `--branch`, `--tag`, `--rev` or `--version`.",
            ),
            UpdateError::GitWithoutProject => String::from_str(
                "You need to pass `--substrate`, `--polkadot`, `--cumulus` or `--beefy` for `--git`.",
            ),
            UpdateError::MissingTarget => String::from_str(
                "You must specify one of `--substrate`, `--polkadot`, `--cumulus`, `--beefy` or `--all`.",
            ),
            UpdateError::SeveralTargets => String::from_str(
                "You must specify only one of `--substrate`, `--polkadot`, `--cumulus`, `--beefy` or `--all`.",
            ),
            UpdateError::InvalidVersionSource(v) => {
                let r = joined("Invalid 'version' source: ", v.as_str(), "");
                proof {
                    reveal_strlit("");
                    assert(r@ =~= "Invalid 'version' source: "@ + v@);
                }
                r
            },
            UpdateError::InvalidManifest(m) => m.clone(),
            UpdateError::InvalidRegistryResponse(b) => {
                let r = joined("error trying to JSON parse the crates.io response: ", b.as_str(), "");
                proof {
                    reveal_strlit("");
                    assert(r@ =~= "error trying to JSON parse the crates.io response: "@ + b@);
                }
                r
            },
            UpdateError::NotOnRegistry(p) => joined("package '", p.as_str(), "' not found on crates.io"),
            UpdateError::NotInLockfile(p) => joined("package '", p.as_str(), "' not found in Cargo.lock"),
            UpdateError::FetchFailed(m) => m.clone(),
            UpdateError::Unanswered(p) => joined("no answer for package '", p.as_str(), "'"),
        }
    }
}

} // verus!
