use vat::command::{Command, Commands};
use vat::envmap::EnvMap;
use vat::errors::PackageError;
use vat::package::Package;
use vat::platform::Platform;
use vat::runner::{command_line, launch_script};
use vat::strutil::{join_str, replace_str, trim_str, u64_to_string};
use vat::vat::Vat;
use vat::version::Version;

fn cmd(values: Vec<&str>) -> Command {
    Command::new(values.into_iter().map(|v| v.to_string()).collect())
}

fn tables(global: Vec<(&str, Command)>, linux: Option<Vec<(&str, Command)>>) -> Commands {
    Commands {
        global: global.into_iter().map(|(k, c)| (k.to_string(), c)).collect(),
        macos: None,
        linux: linux.map(|t| t.into_iter().map(|(k, c)| (k.to_string(), c)).collect()),
        windows: None,
    }
}

fn vat_with_cmds(cmds: Commands) -> Vat {
    let mut v = Vat::new(Package::new("pkg".to_string(), Version::new(0, 1, 0)));
    v.package_path = "/pkg".to_string();
    v.cmd = Some(cmds);
    v
}

#[test]
fn platform_entry_overrides_global() {
    let c = tables(
        vec![("run", cmd(vec!["sh", "run.sh"]))],
        Some(vec![("run", cmd(vec!["bash", "run.bash"]))]),
    );
    let on_linux = c.get_command("run", Platform::Linux).unwrap();
    assert_eq!(on_linux.values, vec!["bash", "run.bash"]);
    let on_macos = c.get_command("run", Platform::Macos).unwrap();
    assert_eq!(on_macos.values, vec!["sh", "run.sh"]);
    assert!(c.get_command("other", Platform::Linux).is_none());
}

#[test]
fn absent_platform_entry_falls_back_to_global() {
    let c = tables(
        vec![("build", cmd(vec!["make"]))],
        Some(vec![("run", cmd(vec!["bash"]))]),
    );
    let b = c.get_command("build", Platform::Linux).unwrap();
    assert_eq!(b.values, vec!["make"]);
}

#[test]
fn plan_run_builds_program_args_and_env() {
    let mut vat = vat_with_cmds(tables(vec![("run", cmd(vec!["echo", "hi"]))], None));
    let mut resolved = EnvMap::new();
    resolved.insert("A".to_string(), "1".to_string());
    resolved.insert("B".to_string(), "2".to_string());
    vat.set_resolved_env(resolved);
    let mut extra = EnvMap::new();
    extra.insert("B".to_string(), "override".to_string());
    let additional = vec!["--verbose".to_string()];
    let plan = vat
        .plan_run("run", Platform::Linux, false, Some(&extra), Some(&additional))
        .unwrap();
    assert_eq!(plan.program, "echo");
    assert_eq!(plan.args, vec!["hi", "--verbose"]);
    assert_eq!(plan.env.get("A"), Some(&"1".to_string()));
    assert_eq!(plan.env.get("B"), Some(&"override".to_string()));
    assert_eq!(plan.cwd, None);
    assert!(!plan.detach);
}

#[test]
fn plan_run_detached_keeps_args_for_the_script() {
    let mut vat = vat_with_cmds(tables(vec![("run", cmd(vec!["echo", "hi"]))], None));
    vat.cmd.as_mut().unwrap().global[0].1.cwd = Some("/cwd".to_string());
    let additional = vec!["x".to_string()];
    let plan = vat
        .plan_run("run", Platform::Linux, true, None, Some(&additional))
        .unwrap();
    assert_eq!(plan.args, vec!["hi"]);
    assert_eq!(plan.cwd, Some("/cwd".to_string()));
    assert!(plan.detach);
}

#[test]
fn plan_run_fails_without_a_command() {
    let vat = vat_with_cmds(tables(vec![], None));
    match vat.plan_run("run", Platform::Linux, false, None, None) {
        Err(PackageError::CommandNotFound(name)) => assert_eq!(name, "run"),
        other => panic!("expected CommandNotFound, got {:?}", other),
    }
    let bare = Vat::new(Package::new("p".to_string(), Version::new(0, 1, 0)));
    assert!(bare.plan_run("run", Platform::Linux, false, None, None).is_err());
    let empty = vat_with_cmds(tables(vec![("run", cmd(vec![]))], None));
    assert!(empty.plan_run("run", Platform::Linux, false, None, None).is_err());
}

#[test]
fn command_line_quotes_and_escapes_extras() {
    let values = vec!["echo".to_string(), "hi".to_string()];
    let extras = vec![" a b ".to_string(), "50%".to_string()];
    assert_eq!(command_line(&values, &extras), "echo hi \"a b\" 50%%");
    let none: Vec<String> = Vec::new();
    assert_eq!(command_line(&values, &none), "echo hi");
}

#[test]
fn launch_script_exports_environment_then_runs() {
    let mut env = EnvMap::new();
    env.insert("A".to_string(), "v".to_string());
    env.insert("Q".to_string(), "sa\"ys".to_string());
    let script = launch_script(&env, "echo hi");
    assert_eq!(script, "set \"A=v\"\nset \"Q=sa\"\"ys\"\necho hi\nexit\n");
}

#[test]
fn string_helpers() {
    assert_eq!(u64_to_string(0), "0");
    assert_eq!(u64_to_string(907), "907");
    assert_eq!(trim_str("  padded\t"), "padded");
    assert_eq!(replace_str("a%b%", "%", "%%"), "a%%b%%");
    let parts = vec!["a".to_string(), "b".to_string(), "c".to_string()];
    assert_eq!(join_str(&parts, ", "), "a, b, c");
}
