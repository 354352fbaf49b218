use vat::envmap::EnvMap;
use vat::environment::{parse_action, Action, EnvVar, Environments};
use vat::package::Package;
use vat::platform::Platform;
use vat::vat::{expand_tilde_in_path, Vat};
use vat::version::Version;

fn env_of(rules: Vec<(&str, Vec<&str>)>) -> Environments {
    Environments {
        macos: None,
        linux: None,
        windows: None,
        global: rules
            .into_iter()
            .map(|(k, vs)| {
                (k.to_string(), EnvVar { values: vs.into_iter().map(|v| v.to_string()).collect() })
            })
            .collect(),
    }
}

fn vat_with_env(root: &str, env: Environments) -> Vat {
    let mut v = Vat::new(Package::new("pkg".to_string(), Version::new(0, 1, 0)));
    v.package_path = root.to_string();
    v.env = Some(env);
    v
}

#[test]
fn parse_action_recognizes_prefixes() {
    assert_eq!(parse_action("append:x"), (Action::Append, "x".to_string()));
    assert_eq!(parse_action("prepend:y"), (Action::Prepend, "y".to_string()));
    assert_eq!(parse_action("set:z"), (Action::Assign, "z".to_string()));
    assert_eq!(parse_action("plain"), (Action::Append, "plain".to_string()));
}

#[test]
fn append_then_prepend_composes_in_order() {
    let mut vat = vat_with_env("/pkg", env_of(vec![("PATH", vec!["append:foo", "prepend:bar"])]));
    let mut base = EnvMap::new();
    base.insert("PATH".to_string(), "/usr/bin".to_string());
    vat.set_resolved_env(base);
    vat.resolve_env(&EnvMap::new(), Platform::Linux);
    assert_eq!(vat.resolved_env.get("PATH"), Some(&"bar:/usr/bin:foo".to_string()));
}

#[test]
fn single_append_extends_base() {
    let mut vat = vat_with_env("/pkg", env_of(vec![("PATH", vec!["append:foo"])]));
    let mut base = EnvMap::new();
    base.insert("PATH".to_string(), "/usr/bin".to_string());
    vat.set_resolved_env(base);
    vat.resolve_env(&EnvMap::new(), Platform::Linux);
    assert_eq!(vat.resolved_env.get("PATH"), Some(&"/usr/bin:foo".to_string()));
}

#[test]
fn set_resolution_is_idempotent() {
    let mut vat = vat_with_env("/pkg", env_of(vec![("KEY", vec!["set:value"])]));
    let mut base = EnvMap::new();
    base.insert("KEY".to_string(), "stale".to_string());
    vat.set_resolved_env(base);
    vat.resolve_env(&EnvMap::new(), Platform::Linux);
    assert_eq!(vat.resolved_env.get("KEY"), Some(&"value".to_string()));
    // resolving again, seeded with its own result, changes nothing
    vat.resolve_env(&EnvMap::new(), Platform::Linux);
    assert_eq!(vat.resolved_env.get("KEY"), Some(&"value".to_string()));
}

#[test]
fn append_is_not_idempotent() {
    let mut vat = vat_with_env("/pkg", env_of(vec![("KEY", vec!["append:v"])]));
    vat.resolve_env(&EnvMap::new(), Platform::Linux);
    assert_eq!(vat.resolved_env.get("KEY"), Some(&":v".to_string()));
    vat.resolve_env(&EnvMap::new(), Platform::Linux);
    assert_eq!(vat.resolved_env.get("KEY"), Some(&":v:v".to_string()));
}

#[test]
fn host_environment_seeds_missing_variables() {
    let mut vat = vat_with_env("/pkg", env_of(vec![("PATH", vec!["append:x"])]));
    let mut host = EnvMap::new();
    host.insert("PATH".to_string(), "/host/bin".to_string());
    vat.resolve_env(&host, Platform::Linux);
    assert_eq!(vat.resolved_env.get("PATH"), Some(&"/host/bin:x".to_string()));
}

#[test]
fn root_placeholder_resolves_to_package_path() {
    let mut vat = vat_with_env("/opt/pkg", env_of(vec![("BIN", vec!["set:{root}/bin"])]));
    vat.resolve_env(&EnvMap::new(), Platform::Linux);
    assert_eq!(vat.resolved_env.get("BIN"), Some(&"/opt/pkg/bin".to_string()));
    assert_eq!(vat.path_resolve("{root}/lib"), "/opt/pkg/lib");
}

#[test]
fn windows_uses_semicolon_delimiter() {
    let mut vat = vat_with_env("/pkg", env_of(vec![("PATH", vec!["append:x"])]));
    let mut base = EnvMap::new();
    base.insert("PATH".to_string(), "c:/bin".to_string());
    vat.set_resolved_env(base);
    vat.resolve_env(&EnvMap::new(), Platform::Windows);
    assert_eq!(vat.resolved_env.get("PATH"), Some(&"c:/bin;x".to_string()));
}

#[test]
fn platform_bucket_applies_only_on_its_platform() {
    let mut env = env_of(vec![("COMMON", vec!["set:everywhere"])]);
    env.linux = Some(vec![(
        "ONLY_LINUX".to_string(),
        EnvVar { values: vec!["set:yes".to_string()] },
    )]);
    let mut on_linux = vat_with_env("/pkg", env.clone());
    on_linux.resolve_env(&EnvMap::new(), Platform::Linux);
    assert_eq!(on_linux.resolved_env.get("ONLY_LINUX"), Some(&"yes".to_string()));
    assert_eq!(on_linux.resolved_env.get("COMMON"), Some(&"everywhere".to_string()));

    let mut on_macos = vat_with_env("/pkg", env);
    on_macos.resolve_env(&EnvMap::new(), Platform::Macos);
    assert_eq!(on_macos.resolved_env.get("ONLY_LINUX"), None);
    assert_eq!(on_macos.resolved_env.get("COMMON"), Some(&"everywhere".to_string()));
}

#[test]
fn values_apply_in_declared_order_within_one_rule() {
    let mut vat = vat_with_env(
        "/pkg",
        env_of(vec![("K", vec!["set:first", "append:second"])]),
    );
    vat.resolve_env(&EnvMap::new(), Platform::Linux);
    assert_eq!(vat.resolved_env.get("K"), Some(&"first:second".to_string()));
}

#[test]
fn envmap_insert_get_and_extend() {
    let mut a = EnvMap::new();
    assert_eq!(a.len(), 0);
    a.insert("X".to_string(), "1".to_string());
    a.insert("Y".to_string(), "2".to_string());
    a.insert("X".to_string(), "3".to_string());
    assert_eq!(a.len(), 2);
    assert_eq!(a.get("X"), Some(&"3".to_string()));
    assert_eq!(a.get("Z"), None);
    let mut b = EnvMap::new();
    b.insert("Y".to_string(), "9".to_string());
    b.insert("Z".to_string(), "8".to_string());
    a.extend_from(&b);
    assert_eq!(a.get("Y"), Some(&"9".to_string()));
    assert_eq!(a.get("Z"), Some(&"8".to_string()));
    assert_eq!(a.get("X"), Some(&"3".to_string()));
    let c = a.duplicate();
    assert_eq!(c.get("X"), Some(&"3".to_string()));
    assert_eq!(c.len(), a.len());
}

#[test]
fn tilde_expansion_per_path_element() {
    assert_eq!(
        expand_tilde_in_path("~/bin:/usr/bin:~", "/home/u"),
        "/home/u/bin:/usr/bin:/home/u"
    );
    assert_eq!(expand_tilde_in_path("/plain", "/home/u"), "/plain");
    assert_eq!(expand_tilde_in_path("", "/home/u"), "");
}
