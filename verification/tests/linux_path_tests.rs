use monger::arch::Architecture;
use monger::linux::LinuxType;
use monger::version::Version;

#[test]
fn linux_amazon_path() {
    let version = Version::new(3, 4, 6);

    assert_eq!(vec!["x86_64", "amazon", "3.4.6"], LinuxType::Amazon.url_path(&version));
}

#[test]
fn linux_debian7_path() {
    let version = Version::new(3, 4, 6);

    assert_eq!(vec!["x86_64", "debian71", "3.4.6"], LinuxType::Debian7.url_path(&version));
}

#[test]
fn linux_debian8_path() {
    let version = Version::new(3, 4, 6);

    assert_eq!(vec!["x86_64", "debian81", "3.4.6"], LinuxType::Debian8.url_path(&version));
}

#[test]
fn linux_legacy_path() {
    let version = Version::new(3, 4, 6);

    assert_eq!(vec!["x86_64", "3.4.6"], LinuxType::Legacy.url_path(&version));
}

#[test]
fn linux_rhel6_path() {
    let version = Version::new(3, 4, 6);

    assert_eq!(vec!["x86_64", "rhel62", "3.4.6"], LinuxType::Rhel6.url_path(&version));
}

#[test]
fn linux_rhel7_path() {
    let version = Version::new(3, 4, 6);

    assert_eq!(vec!["x86_64", "rhel70", "3.4.6"], LinuxType::Rhel7.url_path(&version));
}

#[test]
fn linux_suse11_path() {
    let version = Version::new(3, 4, 6);

    assert_eq!(vec!["x86_64", "suse11", "3.4.6"], LinuxType::Suse11.url_path(&version));
}

#[test]
fn linux_suse12_path() {
    let version = Version::new(3, 4, 6);

    assert_eq!(vec!["x86_64", "suse12", "3.4.6"], LinuxType::Suse12.url_path(&version));
}

#[test]
fn linux_ubuntu1204_path() {
    let version = Version::new(3, 4, 6);

    assert_eq!(vec!["x86_64", "ubuntu1204", "3.4.6"], LinuxType::Ubuntu1204.url_path(&version));
}

#[test]
fn linux_ubuntu1404_path() {
    let version = Version::new(3, 4, 6);

    assert_eq!(vec!["x86_64", "ubuntu1404", "3.4.6"], LinuxType::Ubuntu1404.url_path(&version));
}

#[test]
fn linux_ubuntu1604_arm_path() {
    let version = Version::new(3, 4, 6);

    assert_eq!(vec!["arm64", "ubuntu1604", "3.4.6"], LinuxType::Ubuntu1604(Architecture::Arm).url_path(&version));
}

#[test]
fn linux_ubuntu1604_x86_64_path() {
    let version = Version::new(3, 4, 6);

    assert_eq!(vec!["x86_64", "ubuntu1604", "3.4.6"], LinuxType::Ubuntu1604(Architecture::X86_64).url_path(&version));
}

#[test]
fn ubuntu16804_path() {
    let version = Version::new(3, 4, 6);

    assert_eq!(vec!["x86_64", "ubuntu1804", "3.4.6"], LinuxType::Ubuntu1804.url_path(&version));
}

