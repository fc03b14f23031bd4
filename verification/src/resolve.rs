//! Finding the version that a dependency is set to: in the registry's
//! answer for a package, or in a lockfile.
//!
//! Nothing here reaches the network or the disk. `version_request` says
//! what has to be fetched, and `get_package_version` reads what came back.

use crate::error::UpdateError;
use crate::error::UpdateErrorView;
use crate::facts::Fetched;
use crate::facts::FetchedView;
use crate::update::VersionSource;
use crate::update::VersionSourceView;
use crate::text::same_text;
use crate::text::text_of;
use vstd::prelude::*;
use vstd::string::StringExecFns;

verus! {

/// One record of a lockfile: the name and the version it carries, each
/// where it is a string.
#[derive(Debug, Clone, PartialEq, Eq)]
pub struct Record {
    pub name: Option<String>,
    pub version: Option<String>,
}

impl View for Record {
    type V = (Option<Seq<char>>, Option<Seq<char>>);

    open spec fn view(&self) -> (Option<Seq<char>>, Option<Seq<char>>) {
        (text_of(self.name), text_of(self.version))
    }
}

/// The records of a list as mathematical values.
pub open spec fn records_view(records: Seq<Record>) -> Seq<(Option<Seq<char>>, Option<Seq<char>>)> {
    records.map_values(|r: Record| r@)
}

/// What the JSON text `body` holds as a string under `inner` inside
/// `outer`: `None` where `body` is not JSON, `Some(None)` where it holds no
/// string there.
pub uninterp spec fn json_text_at(body: Seq<char>, outer: Seq<char>, inner: Seq<char>) -> Option<
    Option<Seq<char>>,
>;

/// The tables of the array of tables `array` in the TOML text `body`, in
/// their order, each as the strings it holds under `first` and `second`;
/// `None` where `body` is not TOML or holds no such array.
pub uninterp spec fn toml_records(
    body: Seq<char>,
    array: Seq<char>,
    first: Seq<char>,
    second: Seq<char>,
) -> Option<Seq<(Option<Seq<char>>, Option<Seq<char>>)>>;

/// `found` as a mathematical value.
pub open spec fn found_view(found: Option<Option<String>>) -> Option<Option<Seq<char>>> {
    match found {
        Some(inner) => Some(text_of(inner)),
        None => None,
    }
}

/// `found` as a mathematical value.
pub open spec fn found_records_view(found: Option<Vec<Record>>) -> Option<
    Seq<(Option<Seq<char>>, Option<Seq<char>>)>,
> {
    match found {
        Some(records) => Some(records_view(records@)),
        None => None,
    }
}

/// `serde_json::from_str` to a `Value`, indexed by `outer` and by `inner`,
/// then `Value::as_str`. The contract gives the result its name and claims
/// nothing else of it.
#[verifier::external_body]
fn json_text(body: &str, outer: &str, inner: &str) -> (r: Option<Option<String>>)
    ensures
        found_view(r) == json_text_at(body@, outer@, inner@),
{
    serde_json::from_str::<serde_json::Value>(body).ok().map(
        |json| json[outer][inner].as_str().map(|s| s.to_string()),
    )
}

/// `toml_edit::Document::from_str`, `Table::get` and
/// `Item::as_array_of_tables`, each table handed out as the two strings
/// under `first` and `second`. The contract gives the result its name and
/// claims nothing else of it.
#[verifier::external_body]
fn lock_records(body: &str, array: &str, first: &str, second: &str) -> (r: Option<Vec<Record>>)
    ensures
        found_records_view(r) == toml_records(body@, array@, first@, second@),
{
    let doc = body.parse::<toml_edit::Document>().ok()?;
    let tables = doc.as_item().as_table()?.get(array)?.as_array_of_tables()?;
    Some(
        tables.iter().map(
            |t|
                Record {
                    name: t.get(first).and_then(|i| i.as_str()).map(|s| s.to_string()),
                    version: t.get(second).and_then(|i| i.as_str()).map(|s| s.to_string()),
                },
        ).collect(),
    )
}

/// The version of the first record that is named `package` and carries a
/// version.
pub open spec fn first_version(
    records: Seq<(Option<Seq<char>>, Option<Seq<char>>)>,
    package: Seq<char>,
) -> Option<Seq<char>>
    decreases records.len(),
{
    if records.len() == 0 {
        None
    } else if records[0].0 == Some(package) && records[0].1 is Some {
        records[0].1
    } else {
        first_version(records.drop_first(), package)
    }
}

/// The version of the first of `records` that is named `package_name` and
/// carries a version.
pub fn find_package_version(records: &Vec<Record>, package_name: &str) -> (r: Option<String>)
    ensures
        text_of(r) == first_version(records_view(records@), package_name@),
{
    let ghost all = records_view(records@);
    assert(all.subrange(0, all.len() as int) == all);
    let mut i: usize = 0;
    while i < records.len()
        invariant
            i <= records.len(),
            all == records_view(records@),
            first_version(all, package_name@) == first_version(
                all.subrange(i as int, all.len() as int),
                package_name@,
            ),
        decreases records.len() - i,
    {
        let ghost rest = all.subrange(i as int, all.len() as int);
        assert(rest[0] == records@[i as int]@);
        assert(rest.drop_first() == all.subrange(i + 1, all.len() as int));
        let record = &records[i];
        let named = match &record.name {
            Some(name) => same_text(name.as_str(), package_name),
            None => false,
        };
        if named {
            match &record.version {
                Some(version) => {
                    return Some(version.clone());
                },
                None => {},
            }
        }
        i += 1;
    }
    assert(all.subrange(i as int, all.len() as int).len() == 0);
    None
}

/// The version that the lockfile `body` records for `package_name`: that
/// of the first record of that name which carries one. `None` where there
/// is none, and where `body` is no lockfile.
pub fn get_package_version_from_cargo_lock_file(body: String, package_name: &str) -> (r: Option<
    String,
>)
    ensures
        text_of(r) == match toml_records(body@, "package"@, "name"@, "version"@) {
            Some(records) => first_version(records, package_name@),
            None => None,
        },
{
    match lock_records(body.as_str(), "package", "name", "version") {
        Some(records) => find_package_version(&records, package_name),
        None => None,
    }
}

/// The newest version in the registry's answer, where `found` is what the
/// answer `body` holds as its newest version.
pub open spec fn registry_version_of(
    found: Option<Option<Seq<char>>>,
    package: Seq<char>,
    body: Seq<char>,
) -> Result<Seq<char>, UpdateErrorView> {
    match found {
        Some(Some(version)) => Ok(version),
        Some(None) => Err(UpdateErrorView::NotOnRegistry(package)),
        None => Err(UpdateErrorView::InvalidRegistryResponse(body)),
    }
}

/// A version or an error as a mathematical value.
pub open spec fn version_view(result: Result<String, UpdateError>) -> Result<
    Seq<char>,
    UpdateErrorView,
> {
    match result {
        Ok(version) => Ok(version@),
        Err(error) => Err(error@),
    }
}

/// The newest version of `package`, from what the registry's answer
/// `body` was found to hold: an answer that is no JSON is an error, and so
/// is one without a newest version.
pub fn registry_version(found: Option<Option<String>>, package: &str, body: &str) -> (r: Result<
    String,
    UpdateError,
>)
    ensures
        version_view(r) == registry_version_of(found_view(found), package@, body@),
{
    match found {
        Some(Some(version)) => Ok(version),
        Some(None) => Err(UpdateError::NotOnRegistry(String::from_str(package))),
        None => Err(UpdateError::InvalidRegistryResponse(String::from_str(body))),
    }
}

/// What has to be fetched before a version can be found.
#[derive(Debug, Clone, PartialEq, Eq)]
pub enum Request {
    /// The body behind `url`, asked for under the name `agent` if there is
    /// one.
    Get { url: String, agent: Option<String> },
    /// The text of the file at `path`.
    Read { path: String },
}

/// A `Request` as a mathematical value.
pub enum RequestView {
    Get { url: Seq<char>, agent: Option<Seq<char>> },
    Read { path: Seq<char> },
}

impl View for Request {
    type V = RequestView;

    open spec fn view(&self) -> RequestView {
        match self {
            Request::Get { url, agent } => RequestView::Get { url: url@, agent: text_of(*agent) },
            Request::Read { path } => RequestView::Read { path: path@ },
        }
    }
}

/// What has to be fetched for `package`: the registry's page for it, the
/// remote lockfile, or the local one.
pub open spec fn request_of(package: Seq<char>, source: VersionSourceView) -> RequestView {
    match source {
        VersionSourceView::CratesIO => RequestView::Get {
            url: "https://crates.io/api/v1/crates/"@ + package,
            agent: Some("diener_crawler"@),
        },
        VersionSourceView::Url(url) => RequestView::Get { url, agent: None },
        VersionSourceView::File(path) => RequestView::Read { path },
    }
}

/// What has to be fetched to find the version of `package` in `source`.
pub fn version_request(package: &str, source: &VersionSource) -> (r: Request)
    ensures
        r@ == request_of(package@, source@),
{
    match source {
        VersionSource::CratesIO => {
            let mut url = String::from_str("https://crates.io/api/v1/crates/");
            url.append(package);
            Request::Get { url, agent: Some(String::from_str("diener_crawler")) }
        },
        VersionSource::Url(url) => Request::Get { url: url.clone(), agent: None },
        VersionSource::File(path) => Request::Read { path: path.clone() },
    }
}

/// The version of `package` in what was fetched from `source`.
///
/// A fetch that failed is an error with the reason given for it. The
/// registry's answer gives its newest version. A lockfile gives the
/// version of the first record of that name that carries one.
pub open spec fn version_of(
    package: Seq<char>,
    source: VersionSourceView,
    fetched: FetchedView,
) -> Result<Seq<char>, UpdateErrorView> {
    match fetched {
        FetchedView::Failed(reason) => Err(UpdateErrorView::FetchFailed(reason)),
        FetchedView::Body(body) => match source {
            VersionSourceView::CratesIO => registry_version_of(
                json_text_at(body, "crate"@, "max_version"@),
                package,
                body,
            ),
            _ => match toml_records(body, "package"@, "name"@, "version"@) {
                Some(records) => match first_version(records, package) {
                    Some(version) => Ok(version),
                    None => Err(UpdateErrorView::NotInLockfile(package)),
                },
                None => Err(UpdateErrorView::NotInLockfile(package)),
            },
        },
    }
}

/// The version of `package` in what was fetched from `source`: the body,
/// or the reason why there is none.
pub fn get_package_version(package: &str, source: &VersionSource, fetched: &Fetched) -> (r:
    Result<String, UpdateError>)
    ensures
        version_view(r) == version_of(package@, source@, fetched@),
{
    let body = match fetched {
        Fetched::Body(body) => body,
        Fetched::Failed(reason) => {
            return Err(UpdateError::FetchFailed(reason.clone()));
        },
    };
    match source {
        VersionSource::CratesIO => {
            let found = json_text(body.as_str(), "crate", "max_version");
            registry_version(found, package, body.as_str())
        },
        _ => match get_package_version_from_cargo_lock_file(body.clone(), package) {
            Some(version) => Ok(version),
            None => Err(UpdateError::NotInLockfile(String::from_str(package))),
        },
    }
}

} // verus!
