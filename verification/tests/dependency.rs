use diener::error::UpdateError;
use diener::facts::Facts;
use diener::facts::Fetched;
use diener::facts::Remote;
use diener::facts::Response;
use diener::rewrite::classify;
use diener::rewrite::handle_dependency;
use diener::rewrite::project_named;
use diener::update::Key;
use diener::update::Project;
use diener::update::Rewrite;
use diener::update::VersionSource;
use toml_edit::Document;

const SUBSTRATE: &str = "https://github.com/paritytech/substrate";
const POLKADOT: &str = "https://github.com/paritytech/polkadot";
const FORK: &str = "https://example.com/fork/substrate";
const ELSEWHERE: &str = "https://example.com/me/my-tools";

fn remote(url: &str, name: Option<&str>) -> Remote {
    Remote { url: url.to_string(), name: name.map(|s| s.to_string()) }
}

fn answer(package: &str, version: &str) -> Response {
    Response {
        package: package.to_string(),
        body: Fetched::Body(format!("{{\"crate\":{{\"max_version\":\"{}\"}}}}", version)),
    }
}

fn known() -> Facts {
    Facts {
        remotes: vec![
            remote(SUBSTRATE, Some("substrate")),
            remote(POLKADOT, Some("polkadot")),
            remote(FORK, Some("substrate")),
            remote(ELSEWHERE, Some("my-tools")),
            remote("https://github.com/paritytech/cumulus", Some("cumulus")),
            remote("https://github.com/paritytech/grandpa-bridge-gadget", Some("grandpa-bridge-gadget")),
            remote("not a url", None),
        ],
        responses: vec![answer("dep", "4.2.0"), answer("real-name", "0.7.1")],
    }
}

fn branch(name: &str) -> Key {
    Key::Branch(name.to_string())
}

fn registry() -> Key {
    Key::Version(VersionSource::CratesIO)
}

/// Rewrites the dependency `dep = <entry>` and returns it written out.
fn rewrite(entry: &str, rewrite: &Rewrite, key: &Key, facts: &Facts) -> (String, Result<(), UpdateError>) {
    let mut doc = format!("dep = {}\n", entry).parse::<Document>().unwrap();
    let table = doc["dep"].as_inline_table_mut().unwrap();
    let result = handle_dependency("dep", table, rewrite, key, facts);
    (table.to_string().trim().to_string(), result)
}

#[test]
fn the_repository_decides_the_project() {
    assert_eq!(project_named("substrate"), Some(Project::Substrate));
    assert_eq!(project_named("polkadot"), Some(Project::Polkadot));
    assert_eq!(project_named("cumulus"), Some(Project::Cumulus));
    assert_eq!(project_named("grandpa-bridge-gadget"), Some(Project::Beefy));
    assert_eq!(project_named("beefy"), None);
    assert_eq!(project_named("Substrate"), None);
    assert_eq!(project_named("substrate.git"), None);
    assert_eq!(project_named(""), None);
}

#[test]
fn a_remote_is_classified_by_what_is_known_of_it() {
    let facts = known();
    assert_eq!(classify(SUBSTRATE, &facts), Some(Project::Substrate));
    assert_eq!(classify(POLKADOT, &facts), Some(Project::Polkadot));
    assert_eq!(classify(FORK, &facts), Some(Project::Substrate));
    assert_eq!(
        classify("https://github.com/paritytech/grandpa-bridge-gadget", &facts),
        Some(Project::Beefy)
    );
    assert_eq!(classify(ELSEWHERE, &facts), None);
    assert_eq!(classify("not a url", &facts), None);
    assert_eq!(classify("https://unknown.example/substrate", &facts), None);
}

#[test]
fn the_first_fact_about_a_remote_counts() {
    let facts = Facts {
        remotes: vec![remote("u", Some("polkadot")), remote("u", Some("substrate"))],
        responses: vec![answer("p", "1.0.0"), answer("p", "2.0.0")],
    };
    assert_eq!(facts.repository("u"), Some("polkadot".to_string()));
    assert_eq!(facts.repository("v"), None);
    assert_eq!(facts.response("p"), Some(&answer("p", "1.0.0").body));
    assert_eq!(facts.response("q"), None);
    assert_eq!(Facts::new(), Facts { remotes: vec![], responses: vec![] });
}

#[test]
fn a_request_reaches_its_own_project() {
    assert!(Rewrite::All.reaches(None));
    assert!(Rewrite::All.reaches(Some(Project::Cumulus)));
    assert!(Rewrite::Substrate(None).reaches(Some(Project::Substrate)));
    assert!(!Rewrite::Substrate(None).reaches(Some(Project::Polkadot)));
    assert!(!Rewrite::Substrate(None).reaches(None));
    assert!(Rewrite::Polkadot(None).reaches(Some(Project::Polkadot)));
    assert!(Rewrite::Cumulus(None).reaches(Some(Project::Cumulus)));
    assert!(Rewrite::Beefy(None).reaches(Some(Project::Beefy)));
    assert!(!Rewrite::Beefy(None).reaches(Some(Project::Substrate)));
}

#[test]
fn a_request_may_bring_a_new_remote() {
    let new = FORK.to_string();
    assert_eq!(Rewrite::All.replacement(), None);
    assert_eq!(Rewrite::Substrate(None).replacement(), None);
    assert_eq!(Rewrite::Substrate(Some(new.clone())).replacement(), Some(&new));
    assert_eq!(Rewrite::Polkadot(Some(new.clone())).replacement(), Some(&new));
    assert_eq!(Rewrite::Cumulus(Some(new.clone())).replacement(), Some(&new));
    assert_eq!(Rewrite::Beefy(Some(new.clone())).replacement(), Some(&new));
}

#[test]
fn the_branch_is_set_in_a_dependency_that_is_reached() {
    let (after, result) = rewrite(
        r#"{ git = "https://github.com/paritytech/substrate", branch = "master" }"#,
        &Rewrite::Substrate(None),
        &branch("dev"),
        &known(),
    );
    assert_eq!(result, Ok(()));
    assert_eq!(after, r#"{ git = "https://github.com/paritytech/substrate", branch = "dev" }"#);
}

#[test]
fn tag_and_rev_are_set_alike() {
    let entry = r#"{ git = "https://github.com/paritytech/substrate", branch = "master" }"#;
    let (after, _) = rewrite(entry, &Rewrite::All, &Key::Tag("v1.0".to_string()), &known());
    assert_eq!(after, r#"{ git = "https://github.com/paritytech/substrate", tag = "v1.0" }"#);
    let (after, _) = rewrite(entry, &Rewrite::All, &Key::Rev("abc123".to_string()), &known());
    assert_eq!(after, r#"{ git = "https://github.com/paritytech/substrate", rev = "abc123" }"#);
}

#[test]
fn only_the_new_reference_is_left() {
    let (after, result) = rewrite(
        r#"{ tag = "v1", git = "https://github.com/paritytech/substrate", rev = "abc", version = "1.0", branch = "old", path = "../x", features = ["std"] }"#,
        &Rewrite::All,
        &branch("dev"),
        &known(),
    );
    assert_eq!(result, Ok(()));
    assert_eq!(
        after,
        r#"{ git = "https://github.com/paritytech/substrate", version = "1.0", path = "../x", features = ["std"] , branch = "dev" }"#
    );
}

#[test]
fn a_dependency_of_another_project_is_left_alone() {
    let entry = r#"{ git = "https://github.com/paritytech/polkadot", version = "0.9" }"#;
    let (after, result) = rewrite(entry, &Rewrite::Substrate(None), &branch("dev"), &known());
    assert_eq!(result, Ok(()));
    assert_eq!(after, entry);
}

#[test]
fn a_dependency_of_another_project_still_loses_its_reference() {
    let (after, result) = rewrite(
        r#"{ git = "https://github.com/paritytech/polkadot", branch = "master" }"#,
        &Rewrite::Substrate(None),
        &branch("dev"),
        &known(),
    );
    assert_eq!(result, Ok(()));
    assert_eq!(after, r#"{ git = "https://github.com/paritytech/polkadot"}"#);
}

#[test]
fn all_reaches_a_repository_of_no_project() {
    let (after, result) = rewrite(
        r#"{ git = "https://example.com/me/my-tools" }"#,
        &Rewrite::All,
        &Key::Tag("vX".to_string()),
        &known(),
    );
    assert_eq!(result, Ok(()));
    assert_eq!(after, r#"{ git = "https://example.com/me/my-tools" , tag = "vX" }"#);
    let (after, _) = rewrite(
        r#"{ git = "https://example.com/me/my-tools" }"#,
        &Rewrite::Beefy(None),
        &Key::Tag("vX".to_string()),
        &known(),
    );
    assert_eq!(after, r#"{ git = "https://example.com/me/my-tools" }"#);
}

#[test]
fn a_dependency_without_a_remote_is_not_given_a_reference() {
    for entry in [r#"{ version = "1.0" }"#, r#"{ path = "../x", features = ["std"] }"#, "{}"] {
        let (after, result) = rewrite(entry, &Rewrite::All, &Key::Tag("vX".to_string()), &known());
        assert_eq!(result, Ok(()));
        assert_eq!(after, entry);
    }
}

#[test]
fn a_remote_that_is_no_string_is_no_remote() {
    let (after, result) =
        rewrite(r#"{ git = 1, branch = "master" }"#, &Rewrite::All, &branch("dev"), &known());
    assert_eq!(result, Ok(()));
    assert_eq!(after, r#"{ git = 1}"#);
}

#[test]
fn a_remote_that_could_not_be_parsed_is_passed_over() {
    let (after, result) =
        rewrite(r#"{ git = "not a url", rev = "abc" }"#, &Rewrite::All, &branch("dev"), &known());
    assert_eq!(result, Ok(()));
    assert_eq!(after, r#"{ git = "not a url"}"#);
    let (after, result) = rewrite(
        r#"{ git = "https://github.com/paritytech/substrate", rev = "abc" }"#,
        &Rewrite::All,
        &branch("dev"),
        &Facts::new(),
    );
    assert_eq!(result, Ok(()));
    assert_eq!(after, r#"{ git = "https://github.com/paritytech/substrate"}"#);
}

#[test]
fn the_new_remote_takes_the_place_of_the_old() {
    let (after, result) = rewrite(
        r#"{ git = "https://github.com/paritytech/substrate", branch = "master", version = "1.0" }"#,
        &Rewrite::Substrate(Some(FORK.to_string())),
        &branch("dev"),
        &known(),
    );
    assert_eq!(result, Ok(()));
    assert_eq!(
        after,
        r#"{ git = "https://example.com/fork/substrate", version = "1.0" , branch = "dev" }"#
    );
}

#[test]
fn the_new_remote_is_written_without_a_space_after_it() {
    let (after, _) = rewrite(
        r#"{ branch = "master", git = "https://github.com/paritytech/substrate" }"#,
        &Rewrite::Substrate(Some(FORK.to_string())),
        &branch("dev"),
        &known(),
    );
    assert_eq!(after, r#"{ git = "https://example.com/fork/substrate", branch = "dev" }"#);
}

#[test]
fn a_project_keeps_its_new_remote_from_other_projects() {
    let entry = r#"{ git = "https://github.com/paritytech/polkadot" }"#;
    let (after, _) =
        rewrite(entry, &Rewrite::Substrate(Some(FORK.to_string())), &branch("dev"), &known());
    assert_eq!(after, entry);
}

#[test]
fn rewriting_twice_is_rewriting_once() {
    let facts = known();
    let cases = [
        (Rewrite::Substrate(None), branch("dev")),
        (Rewrite::All, Key::Tag("v1".to_string())),
        (Rewrite::Substrate(Some(FORK.to_string())), Key::Rev("abc".to_string())),
        (Rewrite::Polkadot(None), branch("dev")),
        (Rewrite::All, registry()),
    ];
    for (target, key) in cases {
        let (once, first) = rewrite(
            r#"{ git = "https://github.com/paritytech/substrate", tag = "v0", version = "1.0", path = "../x" }"#,
            &target,
            &key,
            &facts,
        );
        let (twice, second) = rewrite(&once, &target, &key, &facts);
        assert_eq!(once, twice);
        assert_eq!(first, second);
    }
}

#[test]
fn a_new_remote_of_another_name_is_not_reached_again() {
    let target = Rewrite::Substrate(Some(ELSEWHERE.to_string()));
    let (once, _) = rewrite(
        r#"{ git = "https://github.com/paritytech/substrate" }"#,
        &target,
        &branch("dev"),
        &known(),
    );
    assert_eq!(once, r#"{ git = "https://example.com/me/my-tools", branch = "dev" }"#);
    let (twice, _) = rewrite(&once, &target, &branch("dev"), &known());
    assert_eq!(twice, r#"{ git = "https://example.com/me/my-tools"}"#);
}

#[test]
fn the_version_takes_the_place_of_version_and_path() {
    let (after, result) = rewrite(
        r#"{ git = "https://github.com/paritytech/substrate", branch = "master", version = "1.0", path = "../x" }"#,
        &Rewrite::All,
        &registry(),
        &known(),
    );
    assert_eq!(result, Ok(()));
    assert_eq!(
        after,
        r#"{ git = "https://github.com/paritytech/substrate", branch = "master", version = "4.2.0" }"#
    );
}

#[test]
fn a_version_is_set_whatever_the_project() {
    let (after, result) =
        rewrite(r#"{ path = "../x" }"#, &Rewrite::Polkadot(None), &registry(), &known());
    assert_eq!(result, Ok(()));
    assert_eq!(after, r#"{ version = "4.2.0" }"#);
}

#[test]
fn a_renamed_dependency_is_looked_up_under_its_package() {
    let (after, result) = rewrite(
        r#"{ package = "real-name", version = "0.1" }"#,
        &Rewrite::All,
        &registry(),
        &known(),
    );
    assert_eq!(result, Ok(()));
    assert_eq!(after, r#"{ package = "real-name", version = "0.7.1" }"#);
}

#[test]
fn a_version_from_a_lockfile() {
    let lockfile = "[[package]]\nname = \"dep\"\nversion = \"1.0.0\"\n\n[[package]]\nname = \"dep\"\nversion = \"1.1.0\"\n";
    let facts = Facts {
        remotes: vec![],
        responses: vec![Response {
            package: "dep".to_string(),
            body: Fetched::Body(lockfile.to_string()),
        }],
    };
    let key = Key::Version(VersionSource::File("Cargo.lock".to_string()));
    let (after, result) = rewrite(r#"{ version = "0.1" }"#, &Rewrite::All, &key, &facts);
    assert_eq!(result, Ok(()));
    assert_eq!(after, r#"{ version = "1.0.0" }"#);
}

#[test]
fn a_version_that_is_not_found_is_a_failure() {
    let mut facts = known();
    facts.responses.push(Response {
        package: "gone".to_string(),
        body: Fetched::Body("{\"errors\":[]}".to_string()),
    });
    facts.responses.push(Response {
        package: "down".to_string(),
        body: Fetched::Failed("timed out".to_string()),
    });
    let (after, result) = rewrite(
        r#"{ package = "gone", version = "1.0", path = "../x" }"#,
        &Rewrite::All,
        &registry(),
        &facts,
    );
    assert_eq!(result, Err(UpdateError::NotOnRegistry("gone".to_string())));
    assert_eq!(after, r#"{ package = "gone"}"#);
    let (_, result) = rewrite(r#"{ package = "down" }"#, &Rewrite::All, &registry(), &facts);
    assert_eq!(result, Err(UpdateError::FetchFailed("timed out".to_string())));
    let (_, result) = rewrite(r#"{ package = "never-asked" }"#, &Rewrite::All, &registry(), &facts);
    assert_eq!(result, Err(UpdateError::Unanswered("never-asked".to_string())));
}
