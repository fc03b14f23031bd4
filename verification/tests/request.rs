use diener::error::UpdateError;
use diener::update::get_version_source;
use diener::update::is_git_source;
use diener::update::version_source_from;
use diener::update::Key;
use diener::update::Rewrite;
use diener::update::Update;
use diener::update::VersionSource;
use std::path::PathBuf;

fn nothing() -> Update {
    Update {
        path: None,
        substrate: false,
        polkadot: false,
        cumulus: false,
        beefy: false,
        all: false,
        branch: None,
        rev: None,
        tag: None,
        version: None,
        git: None,
    }
}

fn text(s: &str) -> Option<String> {
    Some(s.to_string())
}

#[test]
fn branch_for_one_project() {
    let options = Update { substrate: true, branch: text("dev"), ..nothing() };
    assert_eq!(
        options.into_parts(false),
        Ok((Rewrite::Substrate(None), Key::Branch("dev".to_string()), None))
    );
}

#[test]
fn path_is_handed_through() {
    let options = Update {
        path: Some(PathBuf::from("some/where")),
        all: true,
        tag: text("v1"),
        ..nothing()
    };
    assert_eq!(
        options.into_parts(false),
        Ok((Rewrite::All, Key::Tag("v1".to_string()), Some(PathBuf::from("some/where"))))
    );
}

#[test]
fn rev_for_all() {
    let options = Update { all: true, rev: text("abc123"), ..nothing() };
    assert_eq!(options.into_parts(false), Ok((Rewrite::All, Key::Rev("abc123".to_string()), None)));
}

#[test]
fn branch_comes_before_rev_and_tag() {
    let options =
        Update { all: true, branch: text("b"), rev: text("r"), tag: text("t"), ..nothing() };
    assert_eq!(options.into_parts(false), Ok((Rewrite::All, Key::Branch("b".to_string()), None)));
    let options = Update { all: true, rev: text("r"), tag: text("t"), ..nothing() };
    assert_eq!(options.into_parts(false), Ok((Rewrite::All, Key::Rev("r".to_string()), None)));
}

#[test]
fn each_project_is_chosen_by_its_own_flag() {
    let each = |substrate, beefy, polkadot, cumulus| {
        Update { substrate, beefy, polkadot, cumulus, branch: text("b"), ..nothing() }
            .into_parts(false)
            .map(|parts| parts.0)
    };
    assert_eq!(each(true, false, false, false), Ok(Rewrite::Substrate(None)));
    assert_eq!(each(false, true, false, false), Ok(Rewrite::Beefy(None)));
    assert_eq!(each(false, false, true, false), Ok(Rewrite::Polkadot(None)));
    assert_eq!(each(false, false, false, true), Ok(Rewrite::Cumulus(None)));
}

#[test]
fn more_than_one_target_is_refused() {
    let options = Update { substrate: true, polkadot: true, branch: text("X"), ..nothing() };
    assert_eq!(options.into_parts(false), Err(UpdateError::SeveralTargets));
    for flags in 0..32u8 {
        let on = |bit: u8| flags & (1 << bit) != 0;
        let options = Update {
            all: on(0),
            substrate: on(1),
            polkadot: on(2),
            cumulus: on(3),
            beefy: on(4),
            branch: text("X"),
            ..nothing()
        };
        let result = options.into_parts(false);
        match flags.count_ones() {
            0 => assert_eq!(result, Err(UpdateError::MissingTarget)),
            1 => assert!(result.is_ok()),
            _ => assert_eq!(result, Err(UpdateError::SeveralTargets)),
        }
    }
    let options = Update { all: true, cumulus: true, version: text("latest"), ..nothing() };
    assert_eq!(options.into_parts(false), Err(UpdateError::SeveralTargets));
    let options =
        Update { substrate: true, beefy: true, branch: text("X"), git: text("u"), ..nothing() };
    assert_eq!(options.into_parts(false), Err(UpdateError::SeveralTargets));
}

#[test]
fn new_remote_goes_with_its_project() {
    let options = Update {
        polkadot: true,
        branch: text("b"),
        git: text("https://example.com/fork/polkadot"),
        ..nothing()
    };
    assert_eq!(
        options.into_parts(false),
        Ok((
            Rewrite::Polkadot(text("https://example.com/fork/polkadot")),
            Key::Branch("b".to_string()),
            None
        ))
    );
}

#[test]
fn all_takes_no_new_remote() {
    let options = Update { all: true, branch: text("b"), git: text("u"), ..nothing() };
    assert_eq!(options.into_parts(false), Err(UpdateError::GitWithoutProject));
}

#[test]
fn version_reaches_all_dependencies() {
    let options = Update { substrate: true, version: text("latest"), ..nothing() };
    assert_eq!(
        options.into_parts(false),
        Ok((Rewrite::All, Key::Version(VersionSource::CratesIO), None))
    );
    let options = Update { version: text("https://example.com/Cargo.lock"), ..nothing() };
    assert_eq!(
        options.into_parts(false),
        Ok((
            Rewrite::All,
            Key::Version(VersionSource::Url("https://example.com/Cargo.lock".to_string())),
            None
        ))
    );
}

#[test]
fn version_takes_no_new_remote() {
    let options =
        Update { substrate: true, version: text("latest"), git: text("u"), ..nothing() };
    assert_eq!(options.into_parts(false), Err(UpdateError::GitWithoutProject));
}

#[test]
fn a_key_is_needed() {
    let options = Update { substrate: true, ..nothing() };
    assert_eq!(options.into_parts(false), Err(UpdateError::MissingKey));
}

#[test]
fn a_target_is_needed() {
    let options = Update { branch: text("b"), ..nothing() };
    assert_eq!(options.into_parts(false), Err(UpdateError::MissingTarget));
}

#[test]
fn a_missing_key_is_reported_first() {
    assert_eq!(nothing().into_parts(false), Err(UpdateError::MissingKey));
    let options = Update { version: text("nonsense"), ..nothing() };
    assert_eq!(
        options.into_parts(true),
        Err(UpdateError::InvalidVersionSource("nonsense".to_string()))
    );
}

#[test]
fn invalid_version_source_is_refused() {
    let value = "not-a-url-not-latest-not-a-real-file";
    let options = Update { all: true, version: text(value), ..nothing() };
    let refused = options.into_parts(false);
    assert_eq!(refused, Err(UpdateError::InvalidVersionSource(value.to_string())));
    assert_eq!(
        refused.unwrap_err().message(),
        "Invalid 'version' source: not-a-url-not-latest-not-a-real-file"
    );
}

#[test]
fn latest_is_the_registry() {
    assert_eq!(get_version_source(&"latest".to_string(), false), Ok(VersionSource::CratesIO));
    assert_eq!(get_version_source(&"latest".to_string(), true), Ok(VersionSource::CratesIO));
}

#[test]
fn a_url_is_a_remote_lockfile() {
    for url in ["http://example.com/Cargo.lock", "https://example.com/x", "https://"] {
        assert_eq!(
            get_version_source(&url.to_string(), false),
            Ok(VersionSource::Url(url.to_string()))
        );
    }
    assert_eq!(
        get_version_source(&"http://Cargo.lock".to_string(), true),
        Ok(VersionSource::Url("http://Cargo.lock".to_string()))
    );
}

#[test]
fn other_schemes_are_no_source() {
    for url in ["ftp://example.com/Cargo.lock", "http:/example.com", "HTTP://example.com", ""] {
        assert_eq!(
            get_version_source(&url.to_string(), false),
            Err(UpdateError::InvalidVersionSource(url.to_string()))
        );
    }
}

#[test]
fn an_existing_lockfile_is_a_local_source() {
    for path in ["Cargo.lock", "some/dir/Cargo.lock", "/abs/Cargo.lock", "./Cargo.lock"] {
        assert_eq!(
            get_version_source(&path.to_string(), true),
            Ok(VersionSource::File(path.to_string()))
        );
    }
}

#[test]
fn a_lockfile_that_is_not_there_is_no_source() {
    assert_eq!(
        get_version_source(&"some/dir/Cargo.lock".to_string(), false),
        Err(UpdateError::InvalidVersionSource("some/dir/Cargo.lock".to_string()))
    );
}

#[test]
fn a_file_of_another_name_is_no_source() {
    for path in ["Cargo.toml", "dir/Cargo.lock.bak", "dir/cargo.lock", "Cargo.lock/other", "dir"] {
        assert_eq!(
            get_version_source(&path.to_string(), true),
            Err(UpdateError::InvalidVersionSource(path.to_string()))
        );
    }
}

#[test]
fn the_source_follows_the_file_name_that_is_handed_over() {
    let version = "anything".to_string();
    assert_eq!(
        version_source_from(&version, &text("Cargo.lock"), true),
        Ok(VersionSource::File(version.clone()))
    );
    assert_eq!(
        version_source_from(&version, &text("Cargo.lock"), false),
        Err(UpdateError::InvalidVersionSource(version.clone()))
    );
    assert_eq!(
        version_source_from(&version, &None, true),
        Err(UpdateError::InvalidVersionSource(version.clone()))
    );
    assert_eq!(
        version_source_from(&"latest".to_string(), &text("latest"), true),
        Ok(VersionSource::CratesIO)
    );
    assert_eq!(
        version_source_from(&"https://x".to_string(), &text("Cargo.lock"), true),
        Ok(VersionSource::Url("https://x".to_string()))
    );
}

#[test]
fn git_references_are_git_sources() {
    assert!(is_git_source(&Key::Tag("t".to_string())));
    assert!(is_git_source(&Key::Branch("b".to_string())));
    assert!(is_git_source(&Key::Rev("r".to_string())));
    assert!(!is_git_source(&Key::Version(VersionSource::CratesIO)));
    assert!(!is_git_source(&Key::Version(VersionSource::Url("https://x".to_string()))));
    assert!(!is_git_source(&Key::Version(VersionSource::File("Cargo.lock".to_string()))));
}

#[test]
fn every_error_has_its_message() {
    let s = |t: &str| t.to_string();
    assert_eq!(
        UpdateError::MissingKey.message(),
        "You need to pass `--branch`, `--tag`, `--rev` or `--version`."
    );
    assert_eq!(
        UpdateError::GitWithoutProject.message(),
        "You need to pass `--substrate`, `--polkadot`, `--cumulus` or `--beefy` for `--git`."
    );
    assert_eq!(
        UpdateError::MissingTarget.message(),
        "You must specify one of `--substrate`, `--polkadot`, `--cumulus`, `--beefy` or `--all`."
    );
    assert_eq!(
        UpdateError::SeveralTargets.message(),
        "You must specify only one of `--substrate`, `--polkadot`, `--cumulus`, `--beefy` or `--all`."
    );
    assert_eq!(
        UpdateError::InvalidVersionSource(s("x y")).message(),
        "Invalid 'version' source: x y"
    );
    assert_eq!(UpdateError::InvalidManifest(s("expected `=`")).message(), "expected `=`");
    assert_eq!(
        UpdateError::InvalidRegistryResponse(s("<html>")).message(),
        "error trying to JSON parse the crates.io response: <html>"
    );
    assert_eq!(
        UpdateError::NotOnRegistry(s("foo")).message(),
        "package 'foo' not found on crates.io"
    );
    assert_eq!(
        UpdateError::NotInLockfile(s("foo")).message(),
        "package 'foo' not found in Cargo.lock"
    );
    assert_eq!(UpdateError::FetchFailed(s("timed out")).message(), "timed out");
    assert_eq!(UpdateError::Unanswered(s("foo")).message(), "no answer for package 'foo'");
}
