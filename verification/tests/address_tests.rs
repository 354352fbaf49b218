use vat::address::{PackageName, PackageVersion};
use vat::version::{get_latest_semver_tag, get_semver_tags, zip_file_name, Version};

#[test]
fn bare_name_selects_main() {
    let a = PackageName::from_str("maya");
    assert_eq!(a.name, "maya");
    assert_eq!(a.version, PackageVersion::Main);
    assert!(a.active);
}

#[test]
fn name_main_selects_main() {
    let a = PackageName::from_str("maya/main");
    let b = PackageName::from_str("maya");
    assert_eq!(a.name, b.name);
    assert_eq!(a.version, b.version);
}

#[test]
fn name_latest_selects_latest() {
    let a = PackageName::from_str("maya/latest");
    assert_eq!(a.name, "maya");
    assert_eq!(a.version, PackageVersion::Latest);
}

#[test]
fn semver_segment_selects_exact_version() {
    let a = PackageName::from_str("maya/1.2.3");
    assert_eq!(a.name, "maya");
    assert_eq!(a.version, PackageVersion::Version(Version::new(1, 2, 3)));
}

#[test]
fn prerelease_segment_keeps_triple() {
    let a = PackageName::from_str("maya/1.2.3-alpha.1");
    assert_eq!(a.version, PackageVersion::Version(Version::new(1, 2, 3)));
}

#[test]
fn unparsable_segment_degrades_to_latest() {
    let a = PackageName::from_str("maya/not-a-version");
    assert_eq!(a.name, "maya");
    assert_eq!(a.version, PackageVersion::Latest);
}

#[test]
fn commas_are_dropped() {
    let a = PackageName::from_str("ma,ya");
    assert_eq!(a.name, "maya");
    assert_eq!(a.version, PackageVersion::Main);
}

#[test]
fn two_slashes_keep_whole_name_and_select_latest() {
    let a = PackageName::from_str("a/b/c");
    assert_eq!(a.name, "a/b/c");
    assert_eq!(a.version, PackageVersion::Latest);
}

#[test]
fn from_vec_str_parses_in_order() {
    let names = vec!["alpha".to_string(), "beta/0.2.0".to_string()];
    let parsed = PackageName::from_vec_str(&names);
    assert_eq!(parsed.len(), 2);
    assert_eq!(parsed[0].name, "alpha");
    assert_eq!(parsed[0].version, PackageVersion::Main);
    assert_eq!(parsed[1].name, "beta");
    assert_eq!(parsed[1].version, PackageVersion::Version(Version::new(0, 2, 0)));
}

#[test]
fn selector_text() {
    assert_eq!(PackageVersion::Latest.text(), "latest");
    assert_eq!(PackageVersion::Main.text(), "main");
    assert_eq!(PackageVersion::Version(Version::new(1, 10, 3)).text(), "1.10.3");
}

#[test]
fn version_text_and_archive_name() {
    let v = Version::new(1, 10, 3);
    assert_eq!(v.text(), "1.10.3");
    assert_eq!(zip_file_name(&v), "1.10.3-package.zip");
    assert_eq!(Version::new(0, 0, 0).text(), "0.0.0");
    assert_eq!(Version::new(12345, 0, 7).text(), "12345.0.7");
}

#[test]
fn semver_tags_filter_and_order() {
    let tags = vec![
        "0.1.0".to_string(),
        "not-a-tag".to_string(),
        "0.10.0".to_string(),
        "0.2.0".to_string(),
    ];
    let parsed = get_semver_tags(&tags);
    assert_eq!(
        parsed,
        vec![Version::new(0, 1, 0), Version::new(0, 10, 0), Version::new(0, 2, 0)]
    );
}

#[test]
fn latest_semver_tag_is_maximum_not_lexical() {
    let tags = vec!["1.2.0".to_string(), "1.10.0".to_string(), "1.3.0".to_string()];
    assert_eq!(get_latest_semver_tag(&tags), Some(Version::new(1, 10, 0)));
}

#[test]
fn latest_semver_tag_of_nothing_is_none() {
    let tags: Vec<String> = Vec::new();
    assert_eq!(get_latest_semver_tag(&tags), None);
    let junk = vec!["vat-rocks".to_string()];
    assert_eq!(get_latest_semver_tag(&junk), None);
}

#[test]
fn version_ordering() {
    assert!(Version::new(1, 2, 0).lt(&Version::new(1, 10, 0)));
    assert!(Version::new(1, 9, 9).lt(&Version::new(2, 0, 0)));
    assert!(!Version::new(1, 2, 3).lt(&Version::new(1, 2, 3)));
}
