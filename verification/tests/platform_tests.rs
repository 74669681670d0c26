use monger::arch::Architecture;
use monger::error::Error;
use monger::linux::{
    check_amazon, check_debian, check_rhel, check_suse, check_ubuntu, LinuxType,
};
use monger::macos::MacOsType;
use monger::os::{os_names, OperatingSystem};
use monger::version::Version;

#[test]
fn ubuntu_releases_map_to_their_builds() {
    assert_eq!(check_ubuntu("ubuntu", Some("18.04")), Some(LinuxType::Ubuntu1804));
    assert_eq!(
        check_ubuntu("ubuntu", Some("16.04")),
        Some(LinuxType::Ubuntu1604(Architecture::X86_64))
    );
    assert_eq!(check_ubuntu("ubuntu", Some("14.04")), Some(LinuxType::Ubuntu1404));
    assert_eq!(check_ubuntu("ubuntu", Some("12.10")), Some(LinuxType::Ubuntu1204));
    assert_eq!(check_ubuntu("ubuntu", Some("10.04")), None);
    assert_eq!(check_ubuntu("ubuntu", None), None);
    assert_eq!(check_ubuntu("debian", Some("18.04")), None);
}

#[test]
fn amazon_is_recognized_by_id_alone() {
    assert_eq!(check_amazon("amzn"), Some(LinuxType::Amazon));
    assert_eq!(check_amazon("amazon"), None);
}

#[test]
fn rhel_and_centos_share_builds() {
    assert_eq!(check_rhel("rhel", Some("7.4")), Some(LinuxType::Rhel7));
    assert_eq!(check_rhel("centos", Some("6.9")), Some(LinuxType::Rhel6));
    assert_eq!(check_rhel("rhel", Some("5.1")), None);
    assert_eq!(check_rhel("fedora", Some("7.4")), None);
}

#[test]
fn suse_releases_map_to_their_builds() {
    assert_eq!(check_suse("suse", Some("12.3")), Some(LinuxType::Suse12));
    assert_eq!(check_suse("suse", Some("11.0")), Some(LinuxType::Suse11));
    assert_eq!(check_suse("suse", Some("10.0")), None);
    assert_eq!(check_suse("opensuse", Some("12.3")), None);
}

#[test]
fn debian_only_two_releases_have_builds() {
    assert_eq!(check_debian("debian", Some("8.1")), Some(LinuxType::Debian8));
    assert_eq!(check_debian("debian", Some("7.9")), Some(LinuxType::Debian7));
    assert_eq!(check_debian("debian", Some("9.0")), None);
    assert_eq!(check_debian("ubuntu", Some("8.1")), None);
}

#[test]
fn unmatched_distributions_fall_back_to_legacy() {
    assert_eq!(LinuxType::get(Some("gentoo"), None).unwrap(), LinuxType::Legacy);
    assert_eq!(
        LinuxType::get(Some("ubuntu"), Some("99999")).unwrap(),
        LinuxType::Legacy
    );
    assert_eq!(
        LinuxType::get(Some("ubuntu"), Some("18.04")).unwrap(),
        LinuxType::Ubuntu1804
    );
}

#[test]
fn missing_os_release_id_is_unknown_os() {
    match LinuxType::get(None, Some("18.04")) {
        Err(Error::UnknownOs) => {},
        _ => panic!("expected UnknownOs"),
    }
}

#[test]
fn desktop_os_before_third_major_takes_the_nonssl_build() {
    let old = Version::new(2, 6, 12);
    let new = Version::new(3, 0, 0);
    assert_eq!(
        OperatingSystem::get("macos", None, None, &old).unwrap(),
        OperatingSystem::MacOs(MacOsType::NonSsl)
    );
    assert_eq!(
        OperatingSystem::get("macos", None, None, &new).unwrap(),
        OperatingSystem::MacOs(MacOsType::Ssl)
    );
}

#[test]
fn linux_host_detects_the_distribution() {
    let v = Version::new(4, 0, 0);
    assert_eq!(
        OperatingSystem::get("linux", Some("amzn"), None, &v).unwrap(),
        OperatingSystem::Linux(LinuxType::Amazon)
    );
}

#[test]
fn unsupported_hosts_are_rejected() {
    let v = Version::new(4, 0, 0);
    match OperatingSystem::get("windows", None, None, &v) {
        Err(Error::UnsupportedOs { os_name }) => assert_eq!(os_name, "windows"),
        _ => panic!("expected UnsupportedOs"),
    }
    assert!(OperatingSystem::get("beos", None, None, &v).is_err());
}

#[test]
fn named_os_table_round_trips() {
    assert_eq!(
        OperatingSystem::from_name("osx"),
        Some(OperatingSystem::MacOs(MacOsType::Ssl))
    );
    assert_eq!(
        OperatingSystem::from_name("osx-nossl"),
        Some(OperatingSystem::MacOs(MacOsType::NonSsl))
    );
    assert_eq!(
        OperatingSystem::from_name("ubuntu1604-arm"),
        Some(OperatingSystem::Linux(LinuxType::Ubuntu1604(Architecture::Arm)))
    );
    assert_eq!(
        OperatingSystem::from_name("legacy"),
        Some(OperatingSystem::Linux(LinuxType::Legacy))
    );
    assert_eq!(OperatingSystem::from_name("win32"), None);
    let names = os_names();
    assert_eq!(names.len(), 15);
    for name in &names {
        assert!(OperatingSystem::from_name(name).is_some());
    }
    let mut sorted = names.clone();
    sorted.sort();
    assert_eq!(names, sorted);
}

#[test]
fn os_tokens_and_extensions() {
    let linux = OperatingSystem::Linux(LinuxType::Legacy);
    let osx = OperatingSystem::MacOs(MacOsType::Ssl);
    let win = OperatingSystem::Windows(monger::windows::WindowsType::Server2008);
    assert_eq!(linux.name(), "linux");
    assert_eq!(osx.name(), "osx");
    assert_eq!(win.name(), "win32");
    assert_eq!(linux.extension().name(), "tgz");
    assert_eq!(osx.extension().name(), "tgz");
    assert_eq!(win.extension().name(), "msi");
}
