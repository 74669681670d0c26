use monger::error::Error;
use monger::fs::Fs;
use monger::install::{InstallStage, Installer};
use monger::store::StoreModel;

fn store_of(ids: &[&str]) -> StoreModel {
    let versions: Vec<String> = ids.iter().map(|s| s.to_string()).collect();
    StoreModel::from_parts(versions, Vec::new(), None)
}

fn layout() -> Fs {
    Fs::builder().build().unwrap()
}

#[test]
fn version_exists_follows_the_listing() {
    let fs = layout();
    let store = store_of(&["4.0.5", "custom"]);
    assert!(fs.version_exists(&store, "4.0.5"));
    assert!(fs.version_exists(&store, "custom"));
    assert!(!fs.version_exists(&store, "4.0.6"));
}

#[test]
fn shorthand_resolves_locally_without_catalog_access() {
    let fs = layout();
    let store = store_of(&["4.2.9"]);
    assert_eq!(fs.get_newest_matching_version(&store, "4.2").unwrap(), "4.2.9");
}

#[test]
fn shorthand_picks_newest_plain_patch() {
    let fs = layout();
    let store = store_of(&["4.2.1", "4.2.9", "4.2.10-rc0", "4.0.28", "junk"]);
    assert_eq!(fs.get_newest_matching_version(&store, "4.2").unwrap(), "4.2.9");
}

#[test]
fn system_resolves_to_itself() {
    let fs = layout();
    let store = store_of(&[]);
    assert_eq!(fs.get_newest_matching_version(&store, "system").unwrap(), "system");
}

#[test]
fn installed_identifier_resolves_to_itself() {
    let fs = layout();
    let store = store_of(&["my-build"]);
    assert_eq!(fs.get_newest_matching_version(&store, "my-build").unwrap(), "my-build");
}

#[test]
fn unmatched_specifier_is_invalid_version() {
    let fs = layout();
    let store = store_of(&["4.0.5"]);
    match fs.get_newest_matching_version(&store, "4.2") {
        Err(Error::InvalidVersion { version }) => assert_eq!(version, "4.2"),
        _ => panic!("expected InvalidVersion"),
    }
}

#[test]
fn delete_on_missing_identifier_removes_nothing() {
    let fs = layout();
    let mut store = store_of(&["4.0.5"]);
    assert!(!fs.delete_mongodb_version(&mut store, "4.2.0"));
    assert_eq!(fs.list_versions(&store), vec!["4.0.5".to_string()]);
}

#[test]
fn delete_removes_an_installed_identifier() {
    let fs = layout();
    let mut store = store_of(&["4.0.5", "4.2.0"]);
    assert!(fs.delete_mongodb_version(&mut store, "4.0.5"));
    assert_eq!(fs.list_versions(&store), vec!["4.2.0".to_string()]);
}

#[test]
fn prune_keeps_the_newest_plain_of_each_line() {
    let fs = layout();
    let mut store = store_of(&["4.0.1", "4.0.5", "4.0.5-rc1", "4.2.0"]);
    let deleted = fs.prune(&mut store);
    assert_eq!(fs.list_versions(&store), vec!["4.0.5".to_string(), "4.2.0".to_string()]);
    assert_eq!(deleted, vec!["4.0.1".to_string(), "4.0.5-rc1".to_string()]);
}

#[test]
fn prune_never_touches_unparsable_identifiers() {
    let fs = layout();
    let mut store = store_of(&["my-build", "4.0.1", "4.0.5"]);
    let deleted = fs.prune(&mut store);
    assert_eq!(fs.list_versions(&store), vec!["my-build".to_string(), "4.0.5".to_string()]);
    assert_eq!(deleted, vec!["4.0.1".to_string()]);
}

#[test]
fn prune_without_a_plain_member_keeps_the_group() {
    let fs = layout();
    let mut store = store_of(&["4.1.0-rc0", "4.1.0-rc1"]);
    let deleted = fs.prune(&mut store);
    assert_eq!(
        fs.list_versions(&store),
        vec!["4.1.0-rc0".to_string(), "4.1.0-rc1".to_string()]
    );
    assert!(deleted.is_empty());
}

#[test]
fn install_crash_before_rename_leaves_identifier_absent() {
    let fs = layout();
    let mut store = store_of(&[]);
    let mut installer = Installer::new(
        "mongodb-osx-ssl-x86_64-3.4.6.tgz",
        "mongodb-osx-x86_64-3.4.6",
        "3.4.6",
    );
    installer.step(&mut store, true);
    installer.step(&mut store, true);
    // The run stops here, before the rename.
    assert!(matches!(installer.current_stage(), InstallStage::Rename));
    assert!(!fs.version_exists(&store, "3.4.6"));

    // A retried install over the interrupted store succeeds.
    fs.write_mongodb_download(
        &mut store,
        "mongodb-osx-ssl-x86_64-3.4.6.tgz",
        "mongodb-osx-x86_64-3.4.6",
        "3.4.6",
    );
    assert!(fs.version_exists(&store, "3.4.6"));
}

#[test]
fn failed_step_aborts_the_install() {
    let fs = layout();
    let mut store = store_of(&[]);
    let mut installer = Installer::new("a.tgz", "a-root", "1.0.0");
    installer.step(&mut store, true);
    installer.step(&mut store, false);
    assert!(matches!(installer.current_stage(), InstallStage::Failed));
    assert!(!fs.version_exists(&store, "1.0.0"));
}

#[test]
fn full_install_installs_the_identifier() {
    let fs = layout();
    let mut store = store_of(&["4.0.5"]);
    fs.write_mongodb_download(&mut store, "file.tgz", "extracted-root", "4.2.0");
    assert!(fs.version_exists(&store, "4.2.0"));
    assert!(!fs.version_exists(&store, "extracted-root"));
    assert!(fs.version_exists(&store, "4.0.5"));
}

#[test]
fn default_args_cycle() {
    let fs = layout();
    let mut store = store_of(&[]);
    assert!(fs.get_default_args(&store).is_none());
    assert!(!fs.clear_default_args(&mut store));
    fs.set_default_args(&mut store, "--quiet --port 27018");
    assert_eq!(fs.get_default_args(&store).unwrap(), "--quiet --port 27018");
    assert!(fs.clear_default_args(&mut store));
    assert!(fs.get_default_args(&store).is_none());
}

#[test]
fn clear_db_dir_reports_presence() {
    let fs = layout();
    let mut store = StoreModel::from_parts(
        Vec::new(),
        vec!["4.2.0".to_string()],
        None,
    );
    assert!(fs.clear_db_dir(&mut store, "4.2.0"));
    assert!(!fs.clear_db_dir(&mut store, "4.2.0"));
}

#[test]
fn create_or_get_db_dir_resolves_shorthand() {
    let fs = layout();
    let mut store = store_of(&["4.2.9"]);
    let path = fs.create_or_get_db_dir(&mut store, "4.2").unwrap();
    assert!(path.ends_with("/db/4.2.9"));
    assert!(fs.clear_db_dir(&mut store, "4.2.9"));
}

#[test]
fn path_layout_is_fixed() {
    let fs = layout();
    assert_eq!(fs.get_bin_file_rel("x"), "mongodb-versions/x");
    assert_eq!(fs.get_db_file_rel("y"), "db/y");
    assert!(fs.get_bin_dir().ends_with("/.monger/mongodb-versions"));
    assert!(fs.get_version_dir("4.2.0").ends_with("/.monger/mongodb-versions/4.2.0"));
    assert!(fs.get_default_args_file().ends_with("/.monger/default-args"));
    assert!(fs
        .get_version_bin_dir(&store_of(&["4.2.0"]), "4.2.0")
        .unwrap()
        .ends_with("/.monger/mongodb-versions/4.2.0/bin"));
}
