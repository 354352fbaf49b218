use vat::address::{PackageName, PackageVersion};
use vat::config::VatConfig;
use vat::envmap::EnvMap;
use vat::environment::{EnvVar, Environments};
use vat::errors::{PackageError, RepositoryError};
use vat::package::Package;
use vat::platform::Platform;
use vat::repository::Repository;
use vat::stack::Stack;
use vat::vat::Vat;
use vat::version::Version;

fn manifest(name: &str, version: Version, path: &str) -> Vat {
    let mut v = Vat::new(Package::new(name.to_string(), version));
    v.package_path = path.to_string();
    v
}

fn repo() -> Repository {
    let mut r = Repository::new();
    r.repository_path = "/repo".to_string();
    r
}

fn addr(name: &str, version: PackageVersion) -> PackageName {
    PackageName { name: name.to_string(), version, active: true }
}

#[test]
fn publish_twice_fails_with_already_exists() {
    let mut r = repo();
    let m = manifest("maya", Version::new(0, 1, 0), "/work/maya");
    assert!(r.publish(&m, "first").is_ok());
    match r.publish(&m, "again") {
        Err(RepositoryError::PackageAlreadyExists(msg)) => {
            assert_eq!(msg, "Package maya version 0.1.0 has been published");
        },
        other => panic!("expected PackageAlreadyExists, got {:?}", other),
    }
}

#[test]
fn publish_second_version_keeps_both_resolvable() {
    let mut r = repo();
    assert!(r.publish(&manifest("maya", Version::new(0, 1, 0), "/work/maya"), "v1").is_ok());
    assert!(r.publish(&manifest("maya", Version::new(0, 2, 0), "/work/maya"), "v2").is_ok());
    let p1 = r.resolve_address(&addr("maya", PackageVersion::Version(Version::new(0, 1, 0))));
    let p2 = r.resolve_address(&addr("maya", PackageVersion::Version(Version::new(0, 2, 0))));
    assert_eq!(p1, Some("/repo/maya/0.1.0".to_string()));
    assert_eq!(p2, Some("/repo/maya/0.2.0".to_string()));
}

#[test]
fn publish_refreshes_main_link() {
    let mut r = repo();
    assert!(r.publish(&manifest("maya", Version::new(0, 1, 0), "/work/old"), "v1").is_ok());
    assert!(r.publish(&manifest("maya", Version::new(0, 2, 0), "/work/new"), "v2").is_ok());
    let main = r.resolve_address(&addr("maya", PackageVersion::Main));
    assert_eq!(main, Some("/work/new".to_string()));
}

#[test]
fn latest_resolves_to_maximum_version_regardless_of_insertion_order() {
    let mut r = repo();
    assert!(r.publish(&manifest("maya", Version::new(1, 2, 0), "/w"), "a").is_ok());
    assert!(r.publish(&manifest("maya", Version::new(1, 10, 0), "/w"), "b").is_ok());
    assert!(r.publish(&manifest("maya", Version::new(1, 3, 0), "/w"), "c").is_ok());
    let latest = r.resolve_address(&addr("maya", PackageVersion::Latest));
    assert_eq!(latest, Some("/repo/maya/1.10.0".to_string()));
}

#[test]
fn latest_of_linked_but_unpublished_name_is_none() {
    let mut r = repo();
    assert!(r.link_package(&manifest("maya", Version::new(0, 1, 0), "/w")).is_ok());
    assert_eq!(r.resolve_address(&addr("maya", PackageVersion::Latest)), None);
}

#[test]
fn unknown_name_resolves_to_none() {
    let r = repo();
    assert_eq!(r.resolve_address(&addr("ghost", PackageVersion::Main)), None);
}

#[test]
fn unknown_version_resolves_to_none() {
    let mut r = repo();
    assert!(r.publish(&manifest("maya", Version::new(0, 1, 0), "/w"), "m").is_ok());
    let missing = r.resolve_address(&addr("maya", PackageVersion::Version(Version::new(9, 9, 9))));
    assert_eq!(missing, None);
}

#[test]
fn link_is_first_time_only() {
    let mut r = repo();
    let m = manifest("maya", Version::new(0, 1, 0), "/work/maya");
    assert!(r.link_package(&m).is_ok());
    assert_eq!(
        r.resolve_address(&addr("maya", PackageVersion::Main)),
        Some("/work/maya".to_string())
    );
    match r.link_package(&m) {
        Err(RepositoryError::PackageAlreadyExists(msg)) => {
            assert_eq!(msg, "Package maya has already been linked");
        },
        other => panic!("expected PackageAlreadyExists, got {:?}", other),
    }
}

#[test]
fn removed_package_no_longer_resolves() {
    let mut r = repo();
    assert!(r.publish(&manifest("maya", Version::new(0, 1, 0), "/w"), "m").is_ok());
    r.remove_package("maya");
    assert_eq!(r.resolve_address(&addr("maya", PackageVersion::Main)), None);
    assert_eq!(r.resolve_address(&addr("maya", PackageVersion::Latest)), None);
    assert_eq!(
        r.resolve_address(&addr("maya", PackageVersion::Version(Version::new(0, 1, 0)))),
        None
    );
    assert!(!r.package_exists("maya", &Version::new(0, 1, 0)));
}

#[test]
fn package_exists_sees_only_published_pairs() {
    let mut r = repo();
    assert!(!r.package_exists("maya", &Version::new(0, 1, 0)));
    assert!(r.publish(&manifest("maya", Version::new(0, 1, 0), "/w"), "m").is_ok());
    assert!(r.package_exists("maya", &Version::new(0, 1, 0)));
    assert!(!r.package_exists("maya", &Version::new(0, 2, 0)));
}

#[test]
fn composition_order_is_observable() {
    let set_foo = Environments {
        macos: None,
        linux: None,
        windows: None,
        global: vec![("FOO".to_string(), EnvVar { values: vec!["set:1".to_string()] })],
    };
    let append_foo = Environments {
        macos: None,
        linux: None,
        windows: None,
        global: vec![("FOO".to_string(), EnvVar { values: vec!["append:2".to_string()] })],
    };
    let mut a = manifest("a", Version::new(0, 1, 0), "/a");
    a.env = Some(set_foo);
    let mut b = manifest("b", Version::new(0, 1, 0), "/b");
    b.env = Some(append_foo);

    let ab = Repository::compose_env(&vec![a, b], &EnvMap::new(), Platform::Linux);
    assert_eq!(ab.get("FOO"), Some(&"1:2".to_string()));

    let set_foo2 = Environments {
        macos: None,
        linux: None,
        windows: None,
        global: vec![("FOO".to_string(), EnvVar { values: vec!["set:1".to_string()] })],
    };
    let append_foo2 = Environments {
        macos: None,
        linux: None,
        windows: None,
        global: vec![("FOO".to_string(), EnvVar { values: vec!["append:2".to_string()] })],
    };
    let mut a2 = manifest("a", Version::new(0, 1, 0), "/a");
    a2.env = Some(set_foo2);
    let mut b2 = manifest("b", Version::new(0, 1, 0), "/b");
    b2.env = Some(append_foo2);

    let ba = Repository::compose_env(&vec![b2, a2], &EnvMap::new(), Platform::Linux);
    assert_eq!(ba.get("FOO"), Some(&"1".to_string()));
}

#[test]
fn stack_addresses_keep_caller_order() {
    let s = Stack {
        name: "dev".to_string(),
        command: "run".to_string(),
        package: addr("main-pkg", PackageVersion::Main),
        append: Some(vec![
            addr("extra-one", PackageVersion::Latest),
            addr("extra-two", PackageVersion::Main),
        ]),
        detach: false,
        icon: None,
        modified_at: None,
        created_at: None,
    };
    let names: Vec<String> = s.addresses().into_iter().map(|a| a.name).collect();
    assert_eq!(names, vec!["main-pkg", "extra-one", "extra-two"]);
}

#[test]
fn bump_defaults_to_minor_from_latest_tag() {
    let mut v = manifest("maya", Version::new(0, 1, 0), "/w");
    // the caller's policy: no flag set means a minor bump
    v.up_prompt(Some(Version::new(0, 1, 0)), false, true, false);
    assert_eq!(v.package.version, Version::new(0, 2, 0));
}

#[test]
fn bump_without_tags_starts_from_zero() {
    let mut v = manifest("maya", Version::new(0, 1, 0), "/w");
    v.up_prompt(None, false, true, false);
    assert_eq!(v.package.version, Version::new(0, 1, 0));
}

#[test]
fn bump_zeroes_lower_components() {
    let mut v = manifest("maya", Version::new(1, 2, 3), "/w");
    v.increment_version(true, false, false);
    assert_eq!(v.package.version, Version::new(2, 0, 0));
    let mut w = manifest("maya", Version::new(1, 2, 3), "/w");
    w.increment_version(false, true, false);
    assert_eq!(w.package.version, Version::new(1, 3, 0));
    let mut p = manifest("maya", Version::new(1, 2, 3), "/w");
    p.increment_version(false, false, true);
    assert_eq!(p.package.version, Version::new(1, 2, 4));
}

#[test]
fn plan_init_derives_name_and_initial_version() {
    let v = Vat::plan_init("/work/area/maya", true, false, false).unwrap();
    assert_eq!(v.package.name, "maya");
    assert_eq!(v.package.version, Version::new(0, 1, 0));
    assert_eq!(v.package_path, "/work/area/maya");
}

#[test]
fn plan_init_rejects_existing_package() {
    match Vat::plan_init("/work/maya", false, true, true) {
        Err(PackageError::PackageAlreadyExists(msg)) => {
            assert_eq!(msg, "/work/maya/vat.toml");
        },
        other => panic!("expected PackageAlreadyExists, got {:?}", other),
    }
}

#[test]
fn plan_init_without_create_needs_existing_directory() {
    match Vat::plan_init("/work/maya", false, false, false) {
        Err(PackageError::PackageNotFound(msg)) => {
            assert_eq!(msg, "/work/maya");
        },
        other => panic!("expected PackageNotFound, got {:?}", other),
    }
}

#[test]
fn plan_init_rejects_unusable_path() {
    match Vat::plan_init("", true, false, false) {
        Err(PackageError::InvalidPackage(msg)) => {
            assert_eq!(msg, "Path is not a valid package");
        },
        other => panic!("expected InvalidPackage, got {:?}", other),
    }
    assert!(Vat::plan_init("/work/..", true, false, false).is_err());
    assert!(Vat::plan_init("/", true, false, false).is_err());
}

#[test]
fn plan_init_reads_paths_like_the_platform_does() {
    // a trailing slash or a `.` component does not hide the directory name
    let trailing = Vat::plan_init("/work/maya/", true, false, false).unwrap();
    assert_eq!(trailing.package.name, "maya");
    let dotted = Vat::plan_init("/work/maya/.", true, false, false).unwrap();
    assert_eq!(dotted.package.name, "maya");
}

#[test]
fn file_name_reads_paths_like_the_platform() {
    let cases = [
        "/work/maya", "/work/maya/", "/work/maya/.", "/work/..", "..", ".", "maya", "", "/",
        "a//b", "a/./.", "./a",
    ];
    for p in cases {
        let platform = std::path::Path::new(p)
            .file_name()
            .map(|s| s.to_string_lossy().to_string());
        assert_eq!(vat::vat::file_name_of(p), platform, "path {:?}", p);
    }
}

#[test]
fn version_text_parses_back() {
    let v = Version::new(907, 0, 15);
    let addr = PackageName::from_str(&format!("pkg/{}", v.text()));
    assert_eq!(addr.name, "pkg");
    assert_eq!(addr.version, PackageVersion::Version(v));
}

#[test]
fn config_defaults_under_app_dir() {
    let c = VatConfig::default_under("/home/u/.config/Vat");
    assert_eq!(c.repository_path, "/home/u/.config/Vat/repository");
    assert_eq!(c.packages_path, "/home/u/.config/Vat/packages");
    let mut c2 = VatConfig::new();
    assert_eq!(c2.get_repository_path(), "");
    c2.set_repository_path("/elsewhere".to_string());
    assert_eq!(c2.get_repository_path(), "/elsewhere");
}

#[test]
fn error_messages_carry_context() {
    let e = PackageError::CommandNotFound("build".to_string());
    assert_eq!(e.text(), "Command not found: build");
    let r = RepositoryError::PackageNotFound("maya".to_string());
    assert_eq!(r.text(), "Package not found: maya");
    let g = vat::errors::GitError::CommandError("exit 1".to_string());
    assert_eq!(
        PackageError::GitError(g).text(),
        "Git Error: Error executing the git command: exit 1"
    );
}
