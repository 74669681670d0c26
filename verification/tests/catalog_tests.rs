use monger::catalog::{find_latest_matching_version, find_latest_mongodb_version, tarball_version};
use monger::error::Error;

fn listing_page(versions: &[&str]) -> String {
    let mut page = String::from("<html><body><table>");
    for v in versions {
        page.push_str("<tr><td><a href=\"https://fastdl.mongodb.org/src/mongodb-src-r");
        page.push_str(v);
        page.push_str(".tar.gz\">source</a></td></tr>");
    }
    page.push_str("</table></body></html>");
    page
}

#[test]
fn tarball_entries_carry_their_version() {
    let v = tarball_version("https://fastdl.mongodb.org/src/mongodb-src-r4.2.0.tar.gz").unwrap();
    assert_eq!(v.version_string(), "4.2.0");
}

#[test]
fn non_tarball_entries_carry_none() {
    assert!(tarball_version("https://fastdl.mongodb.org/src/").is_none());
    assert!(tarball_version("mongodb-src-r4.2.0.zip").is_none());
    assert!(tarball_version("src/mongodb-src-r4.2.tar.gz").is_none());
    assert!(tarball_version("src/mongodb-src-r04.2.0.tar.gz").is_none());
    assert!(tarball_version("src/mongodb-src-r4.2.0-rc1.tar.gz").is_none());
    assert!(tarball_version("mongodb-src-r4.2.0.tar.gz").is_none());
}

#[test]
fn latest_stops_at_the_invariant_cutoff() {
    // The development release 4.3.0 sits exactly one minor version above the
    // stable 4.2.0, so the scan stops there: the invariant, not the raw
    // numeric maximum among all stable releases, determines the cutoff.
    let page = listing_page(&["4.3.0", "4.2.0", "4.0.28", "4.0.0"]);
    let latest = find_latest_mongodb_version(&page, "https://dl.mongodb.org/dl/src").unwrap();
    assert_eq!(latest.version_string(), "4.2.0");
}

#[test]
fn latest_without_cutoff_takes_the_newest_stable() {
    let page = listing_page(&["4.0.0", "4.0.28", "3.6.5"]);
    let latest = find_latest_mongodb_version(&page, "https://dl.mongodb.org/dl/src").unwrap();
    assert_eq!(latest.version_string(), "4.0.28");
}

#[test]
fn latest_without_stable_releases_is_invalid_html() {
    let page = listing_page(&["4.3.0"]);
    match find_latest_mongodb_version(&page, "https://dl.mongodb.org/dl/src") {
        Err(Error::InvalidHtml { url }) => assert_eq!(url, "https://dl.mongodb.org/dl/src"),
        _ => panic!("expected InvalidHtml"),
    }
}

#[test]
fn matching_takes_the_first_of_the_line() {
    let page = listing_page(&["4.3.0", "4.2.11", "4.2.0", "4.0.28"]);
    let found = find_latest_matching_version(&page, 4, 2).unwrap();
    assert_eq!(found.version_string(), "4.2.11");
}

#[test]
fn matching_without_the_line_is_version_not_found() {
    let page = listing_page(&["4.0.28"]);
    match find_latest_matching_version(&page, 4, 2) {
        Err(Error::VersionNotFound { version }) => assert_eq!(version, "4.2"),
        _ => panic!("expected VersionNotFound"),
    }
}

#[test]
fn entries_outside_anchors_are_ignored() {
    // The pattern text outside an anchor's href contributes nothing.
    let page = "<html><body>src/mongodb-src-r9.9.9.tar.gz\
                <a href=\"src/mongodb-src-r4.0.0.tar.gz\">x</a></body></html>";
    let latest = find_latest_mongodb_version(page, "u").unwrap();
    assert_eq!(latest.version_string(), "4.0.0");
}
