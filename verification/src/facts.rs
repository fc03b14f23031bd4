//! What has to be known from outside before a manifest can be rewritten:
//! the repository that each remote URL names, and what was fetched for
//! each package.
//!
//! Both come from the caller. The library parses no URL and fetches
//! nothing, so that none of its functions can block or panic.

use crate::text::same_text;
use crate::text::text_of;
use vstd::prelude::*;

verus! {

/// What a parser of git URLs made of one remote URL.
#[derive(Debug, Clone, PartialEq, Eq)]
pub struct Remote {
    /// The URL as the manifest holds it.
    pub url: String,
    /// The name of the repository, where the URL could be parsed.
    pub name: Option<String>,
}

/// A `Remote` as a mathematical value.
pub struct RemoteView {
    pub url: Seq<char>,
    pub name: Option<Seq<char>>,
}

impl View for Remote {
    type V = RemoteView;

    open spec fn view(&self) -> RemoteView {
        RemoteView { url: self.url@, name: text_of(self.name) }
    }
}

/// How a fetch ended.
#[derive(Debug, Clone, PartialEq, Eq)]
pub enum Fetched {
    /// The body that came back.
    Body(String),
    /// The reason why none did.
    Failed(String),
}

/// A `Fetched` as a mathematical value.
pub enum FetchedView {
    Body(Seq<char>),
    Failed(Seq<char>),
}

impl View for Fetched {
    type V = FetchedView;

    open spec fn view(&self) -> FetchedView {
        match self {
            Fetched::Body(text) => FetchedView::Body(text@),
            Fetched::Failed(reason) => FetchedView::Failed(reason@),
        }
    }
}

/// What was fetched to find the version of one package.
#[derive(Debug, Clone, PartialEq, Eq)]
pub struct Response {
    /// The package as the registry or the lockfile names it.
    pub package: String,
    /// How the fetch for it ended.
    pub body: Fetched,
}

/// A `Response` as a mathematical value.
pub struct ResponseView {
    pub package: Seq<char>,
    pub body: FetchedView,
}

impl View for Response {
    type V = ResponseView;

    open spec fn view(&self) -> ResponseView {
        ResponseView { package: self.package@, body: self.body@ }
    }
}

/// All that was found out for one manifest.
#[derive(Debug, Clone, PartialEq, Eq)]
pub struct Facts {
    pub remotes: Vec<Remote>,
    pub responses: Vec<Response>,
}

/// `Facts` as a mathematical value.
pub struct FactsView {
    pub remotes: Seq<RemoteView>,
    pub responses: Seq<ResponseView>,
}

impl View for Facts {
    type V = FactsView;

    open spec fn view(&self) -> FactsView {
        FactsView {
            remotes: self.remotes@.map_values(|r: Remote| r@),
            responses: self.responses@.map_values(|r: Response| r@),
        }
    }
}

/// The repository that `url` names: what the first of `remotes` for that
/// URL says. `None` where the URL could not be parsed, and where nothing is
/// known of it.
pub open spec fn repository_of(remotes: Seq<RemoteView>, url: Seq<char>) -> Option<Seq<char>>
    decreases remotes.len(),
{
    if remotes.len() == 0 {
        None
    } else if remotes[0].url == url {
        remotes[0].name
    } else {
        repository_of(remotes.drop_first(), url)
    }
}

/// What was fetched for `package`: the body of the first of `responses`
/// for it. `None` where there is none.
pub open spec fn response_for(responses: Seq<ResponseView>, package: Seq<char>) -> Option<
    FetchedView,
>
    decreases responses.len(),
{
    if responses.len() == 0 {
        None
    } else if responses[0].package == package {
        Some(responses[0].body)
    } else {
        response_for(responses.drop_first(), package)
    }
}

/// What was found for a package as a mathematical value.
pub open spec fn found_body_view(found: Option<&Fetched>) -> Option<FetchedView> {
    match found {
        Some(body) => Some(body@),
        None => None,
    }
}

impl Facts {
    /// Nothing known.
    pub fn new() -> (r: Facts)
        ensures
            r@.remotes.len() == 0,
            r@.responses.len() == 0,
    {
        Facts { remotes: Vec::new(), responses: Vec::new() }
    }

    /// The repository that `url` names, as far as it is known.
    pub fn repository(&self, url: &str) -> (r: Option<String>)
        ensures
            text_of(r) == repository_of(self@.remotes, url@),
    {
        let ghost all = self@.remotes;
        assert(all.subrange(0, all.len() as int) == all);
        let mut i: usize = 0;
        while i < self.remotes.len()
            invariant
                i <= self.remotes.len(),
                all == self@.remotes,
                repository_of(all, url@) == repository_of(
                    all.subrange(i as int, all.len() as int),
                    url@,
                ),
            decreases self.remotes.len() - i,
        {
            let ghost rest = all.subrange(i as int, all.len() as int);
            assert(rest[0] == self.remotes@[i as int]@);
            assert(rest.drop_first() == all.subrange(i + 1, all.len() as int));
            let remote = &self.remotes[i];
            if same_text(remote.url.as_str(), url) {
                return remote.name.clone();
            }
            i += 1;
        }
        assert(all.subrange(i as int, all.len() as int).len() == 0);
        None
    }

    /// What was fetched for `package`, if anything was.
    pub fn response(&self, package: &str) -> (r: Option<&Fetched>)
        ensures
            found_body_view(r) == response_for(self@.responses, package@),
    {
        let ghost all = self@.responses;
        assert(all.subrange(0, all.len() as int) == all);
        let mut i: usize = 0;
        while i < self.responses.len()
            invariant
                i <= self.responses.len(),
                all == self@.responses,
                response_for(all, package@) == response_for(
                    all.subrange(i as int, all.len() as int),
                    package@,
                ),
            decreases self.responses.len() - i,
        {
            let ghost rest = all.subrange(i as int, all.len() as int);
            assert(rest[0] == self.responses@[i as int]@);
            assert(rest.drop_first() == all.subrange(i + 1, all.len() as int));
            let response = &self.responses[i];
            if same_text(response.package.as_str(), package) {
                return Some(&response.body);
            }
            i += 1;
        }
        assert(all.subrange(i as int, all.len() as int).len() == 0);
        None
    }
}

} // verus!
