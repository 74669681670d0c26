use monger::error::Error;
use monger::fs::Fs;
use monger::monger::{
    chosen_id, needs_dbpath, plan_download, process_args, launch_target, DownloadDecision,
    LaunchTarget,
};
use monger::resolve::{resolve_kind, SpecifierKind};
use monger::store::StoreModel;
use monger::util::{alpha_numeric, is_executable};
use monger::version::Version;

fn strings(items: &[&str]) -> Vec<String> {
    items.iter().map(|s| s.to_string()).collect()
}

#[test]
fn system_specifier_classifies_without_any_lookup() {
    assert!(matches!(resolve_kind("system"), SpecifierKind::System));
}

#[test]
fn specifier_kinds_cover_the_grammar() {
    assert!(matches!(resolve_kind("latest"), SpecifierKind::Latest));
    assert!(matches!(resolve_kind("4.2"), SpecifierKind::MajorMinor(4, 2)));
    match resolve_kind("4.2.3") {
        SpecifierKind::Exact(v) => assert_eq!(v.version_string(), "4.2.3"),
        _ => panic!("expected an exact version"),
    }
    assert!(matches!(resolve_kind("wat"), SpecifierKind::Invalid));
}

#[test]
fn system_launches_from_the_search_path() {
    let fs = Fs::builder().build().unwrap();
    let store = StoreModel::from_parts(Vec::new(), Vec::new(), None);
    match launch_target(&fs, &store, "mongod", "system").unwrap() {
        LaunchTarget::SystemPath => {},
        _ => panic!("expected the search path"),
    }
}

#[test]
fn installed_versions_launch_from_their_bin_directory() {
    let fs = Fs::builder().build().unwrap();
    let store = StoreModel::from_parts(strings(&["4.2.9"]), Vec::new(), None);
    match launch_target(&fs, &store, "mongod", "4.2").unwrap() {
        LaunchTarget::StoreBinary(path) => {
            assert!(path.ends_with("/.monger/mongodb-versions/4.2.9/bin/mongod"));
        },
        _ => panic!("expected a store binary"),
    }
}

#[test]
fn missing_versions_do_not_launch() {
    let fs = Fs::builder().build().unwrap();
    let store = StoreModel::from_parts(Vec::new(), Vec::new(), None);
    match launch_target(&fs, &store, "mongod", "4.2") {
        Err(Error::InvalidVersion { version }) => assert_eq!(version, "4.2"),
        _ => panic!("expected InvalidVersion"),
    }
}

#[test]
fn dbpath_is_injected_only_when_absent() {
    let args = strings(&["--port", "27018"]);
    assert!(needs_dbpath(&args));
    let processed = process_args(args, "/data/4.2.9");
    assert_eq!(processed, strings(&["--port", "27018", "--dbpath", "/data/4.2.9"]));

    let args = strings(&["--dbpath", "/somewhere", "--port", "27018"]);
    assert!(!needs_dbpath(&args));
    let processed = process_args(args.clone(), "/data/4.2.9");
    assert_eq!(processed, args);
}

#[test]
fn download_identifier_defaults_to_the_version() {
    let v = Version::new(4, 2, 0);
    assert_eq!(chosen_id(None, &v), "4.2.0");
    assert_eq!(chosen_id(Some("my-build"), &v), "my-build");
}

#[test]
fn download_plan_honours_force() {
    assert_eq!(plan_download(true, false), DownloadDecision::AlreadyInstalled);
    assert_eq!(plan_download(true, true), DownloadDecision::ReplaceExisting);
    assert_eq!(plan_download(false, false), DownloadDecision::Install);
    assert_eq!(plan_download(false, true), DownloadDecision::Install);
}

#[test]
fn foreground_exits_classify_by_status() {
    assert!(monger::monger::foreground_outcome(true, Some(0), "tar").is_ok());
    match monger::monger::foreground_outcome(false, Some(2), "tar") {
        Err(Error::FailedSubprocess { command, exit_code }) => {
            assert_eq!(command, "tar");
            assert_eq!(exit_code, Some(2));
        },
        _ => panic!("expected FailedSubprocess"),
    }
    match monger::monger::foreground_outcome(false, None, "tar") {
        Err(Error::FailedSubprocess { exit_code, .. }) => assert_eq!(exit_code, None),
        _ => panic!("expected FailedSubprocess"),
    }
}

#[test]
fn spawn_errors_reclassify_only_missing_binaries() {
    let missing = Error::Io { not_found: true, message: "spawn".to_string() };
    match monger::error::reclassify_spawn_error(missing, "mongod", "4.2.0") {
        Error::BinaryNotFound { binary, version } => {
            assert_eq!(binary, "mongod");
            assert_eq!(version, "4.2.0");
        },
        _ => panic!("expected BinaryNotFound"),
    }
    let other = Error::Io { not_found: false, message: "denied".to_string() };
    match monger::error::reclassify_spawn_error(other, "mongod", "4.2.0") {
        Error::Io { not_found, message } => {
            assert!(!not_found);
            assert_eq!(message, "denied");
        },
        _ => panic!("expected the error unchanged"),
    }
}

#[test]
fn generated_identifier_characters() {
    let chars = alpha_numeric();
    assert_eq!(chars.len(), 59);
    assert_eq!(chars[0], '0');
    assert_eq!(chars[8], '8');
    assert_eq!(chars[9], 'A');
    assert_eq!(chars[33], 'Y');
    assert_eq!(chars[34], 'a');
    assert_eq!(chars[58], 'y');
}

#[test]
fn executable_bits_must_all_be_set() {
    assert!(is_executable(0o755));
    assert!(is_executable(0o111));
    assert!(!is_executable(0o644));
    assert!(!is_executable(0o110));
}

#[test]
fn next_page_follows_the_next_relation() {
    let header = "<https://api.github.com/repositories/1/tags?page=2>; rel=\"next\", \
                  <https://api.github.com/repositories/1/tags?page=7>; rel=\"last\"";
    assert_eq!(
        monger::tags::next_page_url(header).unwrap(),
        "https://api.github.com/repositories/1/tags?page=2"
    );
    let last_only = "<https://api.github.com/repositories/1/tags?page=7>; rel=\"last\"";
    assert!(monger::tags::next_page_url(last_only).is_none());
    assert!(monger::tags::next_page_url("not a link header").is_none());
}
