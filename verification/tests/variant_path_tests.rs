use monger::macos::MacOsType;
use monger::version::Version;
use monger::windows::WindowsType;

#[test]
fn nonssl_path() {
    let version = Version::new(3, 4, 6);

    assert_eq!(vec!["x86_64", "3.4.6"], MacOsType::NonSsl.url_path(&version));
}

#[test]
fn ssl_path() {
    let version = Version::new(3, 4, 6);

    assert_eq!(vec!["ssl", "x86_64", "3.4.6"], MacOsType::Ssl.url_path(&version));
}

#[test]
fn server2008_path() {
    let version = Version::new(3, 4, 6);

    assert_eq!(vec!["x86_64", "3.4.6", "signed"], WindowsType::Server2008.url_path(&version));
}

#[test]
fn server2008_r2_path() {
    let version = Version::new(3, 4, 6);

    assert_eq!(
        vec!["x86_64", "2008plus", "3.4.6", "signed"],
        WindowsType::Server2008R2.url_path(&version)
    );
}

#[test]
fn server2008_r2_ssl_path() {
    let version = Version::new(3, 4, 6);

    assert_eq!(
        vec!["x86_64", "2008plus", "ssl", "3.4.6", "signed"],
        WindowsType::Server2008R2Ssl.url_path(&version)
    );
}
