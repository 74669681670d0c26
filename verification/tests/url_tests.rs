use monger::arch::Architecture;
use monger::linux::LinuxType;
use monger::macos::MacOsType;
use monger::os::OperatingSystem;
use monger::version::Version;
use monger::windows::WindowsType;

fn matches_url(url: &str, os: OperatingSystem, version: Version) -> String {
    let download_url = os.download_url(&version);
    let dirname = download_url.dirname();

    assert_eq!(url, download_url.url_string());
    dirname
}

#[test]
fn mod_amazon_linux_url() {
    matches_url(
        "https://fastdl.mongodb.org/linux/mongodb-linux-x86_64-amazon-3.4.6.tgz",
        OperatingSystem::Linux(LinuxType::Amazon),
        Version::new(3, 4, 6),
    );
}

#[test]
fn mod_debian7_linux_url() {
    matches_url(
        "https://fastdl.mongodb.org/linux/mongodb-linux-x86_64-debian71-3.4.6.tgz",
        OperatingSystem::Linux(LinuxType::Debian7),
        Version::new(3, 4, 6),
    );
}

#[test]
fn mod_debian8_linux_url() {
    matches_url(
        "https://fastdl.mongodb.org/linux/mongodb-linux-x86_64-debian81-3.4.6.tgz",
        OperatingSystem::Linux(LinuxType::Debian8),
        Version::new(3, 4, 6),
    );
}

#[test]
fn mod_legacy_linux_url() {
    matches_url(
        "https://fastdl.mongodb.org/linux/mongodb-linux-x86_64-3.4.6.tgz",
        OperatingSystem::Linux(LinuxType::Legacy),
        Version::new(3, 4, 6),
    );
}

#[test]
fn mod_rhel6_linux_url() {
    matches_url(
        "https://fastdl.mongodb.org/linux/mongodb-linux-x86_64-rhel62-3.4.6.tgz",
        OperatingSystem::Linux(LinuxType::Rhel6),
        Version::new(3, 4, 6),
    );
}

#[test]
fn mod_rhel7_linux_url() {
    matches_url(
        "https://fastdl.mongodb.org/linux/mongodb-linux-x86_64-rhel70-3.4.6.tgz",
        OperatingSystem::Linux(LinuxType::Rhel7),
        Version::new(3, 4, 6),
    );
}

#[test]
fn mod_suse11_linux_url() {
    matches_url(
        "https://fastdl.mongodb.org/linux/mongodb-linux-x86_64-suse11-3.4.6.tgz",
        OperatingSystem::Linux(LinuxType::Suse11),
        Version::new(3, 4, 6),
    );
}

#[test]
fn mod_suse12_linux_url() {
    matches_url(
        "https://fastdl.mongodb.org/linux/mongodb-linux-x86_64-suse12-3.4.6.tgz",
        OperatingSystem::Linux(LinuxType::Suse12),
        Version::new(3, 4, 6),
    );
}

#[test]
fn mod_ubuntu1204_linux_url() {
    matches_url(
        "https://fastdl.mongodb.org/linux/mongodb-linux-x86_64-ubuntu1204-3.4.6.tgz",
        OperatingSystem::Linux(LinuxType::Ubuntu1204),
        Version::new(3, 4, 6),
    );
}

#[test]
fn mod_ubunutu1404_linux_url() {
    matches_url(
        "https://fastdl.mongodb.org/linux/mongodb-linux-x86_64-ubuntu1404-3.4.6.tgz",
        OperatingSystem::Linux(LinuxType::Ubuntu1404),
        Version::new(3, 4, 6),
    );
}

#[test]
fn mod_ubunutu1604_arm_linux_url() {
    matches_url(
        "https://fastdl.mongodb.org/linux/mongodb-linux-arm64-ubuntu1604-3.4.6.tgz",
        OperatingSystem::Linux(LinuxType::Ubuntu1604(Architecture::Arm)),
        Version::new(3, 4, 6),
    );
}

#[test]
fn mod_ubuntu1604_x86_64_linux_url() {
    matches_url(
        "https://fastdl.mongodb.org/linux/mongodb-linux-x86_64-ubuntu1604-3.4.6.tgz",
        OperatingSystem::Linux(LinuxType::Ubuntu1604(Architecture::X86_64)),
        Version::new(3, 4, 6),
    );
}

#[test]
fn mod_nonssl_osx_url() {
    let dirname = matches_url(
        "https://fastdl.mongodb.org/osx/mongodb-osx-x86_64-3.4.6.tgz",
        OperatingSystem::MacOs(MacOsType::NonSsl),
        Version::new(3, 4, 6),
    );

    assert_eq!(dirname, "mongodb-osx-x86_64-3.4.6");
}

#[test]
fn mod_ssl_osx_url() {
    let dirname = matches_url(
        "https://fastdl.mongodb.org/osx/mongodb-osx-ssl-x86_64-3.4.6.tgz",
        OperatingSystem::MacOs(MacOsType::Ssl),
        Version::new(3, 4, 6),
    );

    assert_eq!(dirname, "mongodb-osx-x86_64-3.4.6");
}

#[test]
fn mod_ssl_macos_url() {
    let dirname = matches_url(
        "https://fastdl.mongodb.org/osx/mongodb-osx-ssl-x86_64-3.5.4.tgz",
        OperatingSystem::MacOs(MacOsType::Ssl),
        Version::new(3, 5, 4),
    );

    assert_eq!(dirname, "mongodb-macOS-x86_64-3.5.4");
}

#[test]
fn mod_server2008_windows_url() {
    matches_url(
        "https://fastdl.mongodb.org/win32/mongodb-win32-x86_64-3.4.6-signed.msi",
        OperatingSystem::Windows(WindowsType::Server2008),
        Version::new(3, 4, 6),
    );
}

#[test]
fn mod_server2008_r2_windows_url() {
    matches_url(
        "https://fastdl.mongodb.org/win32/mongodb-win32-x86_64-2008plus-3.4.6-signed.msi",
        OperatingSystem::Windows(WindowsType::Server2008R2),
        Version::new(3, 4, 6),
    );
}

#[test]
fn mod_server2008_r2_ssl_windows_url() {
    matches_url(
        "https://fastdl.mongodb.org/win32/mongodb-win32-x86_64-2008plus-ssl-3.4.6-signed.msi",
        OperatingSystem::Windows(WindowsType::Server2008R2Ssl),
        Version::new(3, 4, 6),
    );
}

#[test]
fn ssl_osx_below_name_threshold_uses_plain_token() {
    let dirname = matches_url(
        "https://fastdl.mongodb.org/osx/mongodb-osx-ssl-x86_64-3.5.3.tgz",
        OperatingSystem::MacOs(MacOsType::Ssl),
        Version::new(3, 5, 3),
    );

    assert_eq!(dirname, "mongodb-osx-x86_64-3.5.3");
}

#[test]
fn ssl_osx_past_name_threshold_range_uses_plain_token() {
    let dirname = matches_url(
        "https://fastdl.mongodb.org/osx/mongodb-osx-ssl-x86_64-3.6.0.tgz",
        OperatingSystem::MacOs(MacOsType::Ssl),
        Version::new(3, 6, 0),
    );

    assert_eq!(dirname, "mongodb-osx-x86_64-3.6.0");
}

#[test]
fn ssl_osx_at_url_threshold_switches_filename_and_dirname() {
    let dirname = matches_url(
        "https://fastdl.mongodb.org/osx/mongodb-macos-x86_64-4.1.1.tgz",
        OperatingSystem::MacOs(MacOsType::Ssl),
        Version::new(4, 1, 1),
    );

    assert_eq!(dirname, "mongodb-macos-x86_64-4.1.1");
}

#[test]
fn ssl_osx_above_url_threshold_switches_filename_and_dirname() {
    let dirname = matches_url(
        "https://fastdl.mongodb.org/osx/mongodb-macos-x86_64-4.2.0.tgz",
        OperatingSystem::MacOs(MacOsType::Ssl),
        Version::new(4, 2, 0),
    );

    assert_eq!(dirname, "mongodb-macos-x86_64-4.2.0");
}
