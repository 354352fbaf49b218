//! The package manifest: identity, environment rules, commands, and the
//! transient resolved environment.  Everything a manifest decides — name
//! derivation, version bumps, environment resolution, command lookup — is
//! here; reading, writing and spawning stay outside the library.

use vstd::prelude::*;

use crate::command::Commands;
use crate::envmap::EnvMap;
use crate::environment::Environments;
use crate::errors::PackageError;
use crate::package::Package;
use crate::paths::path_exists;
use crate::paths::path_join;
use crate::paths::spec_path_join;
use crate::platform::Platform;
use crate::runner::RunPlan;
use crate::strutil::opt_str_view;
use crate::strutil::replace_str;
use crate::strutil::spec_replace;
use crate::strutil::str_eq;
use crate::strutil::strs_view;
use crate::variables::Variables;
use crate::version::Version;

verus! {

broadcast use vstd::string::group_string_axioms;

/// One package's manifest.  `package_path` (where it was loaded from) and
/// `resolved_env` (rebuilt per invocation) are transient and never persisted.
#[derive(Debug)]
pub struct Vat {
    pub package_path: String,
    pub package: Package,
    pub variables: Option<Variables>,
    pub env: Option<Environments>,
    pub cmd: Option<Commands>,
    pub dependencies: Option<Vec<String>>,
    pub resolved_env: EnvMap,
}

/// The final component of a path, as the platform path type reads it:
/// trailing `/` and `.` components are skipped, and a path whose last
/// component is `..` — or that has no component left — names nothing.
pub open spec fn spec_file_name(p: Seq<char>) -> Option<Seq<char>>
    decreases p.len(),
{
    if p.len() == 0 {
        None
    } else if p.last() == '/' {
        spec_file_name(p.drop_last())
    } else {
        let i = choose|i: int|
            0 <= i < p.len() && p[i] == '/' && (forall|j: int| i < j < p.len() ==> p[j] != '/');
        let slashed = 0 <= i < p.len() && p[i] == '/';
        let seg = if slashed {
            p.skip(i + 1)
        } else {
            p
        };
        let rest = if slashed {
            p.subrange(0, i)
        } else {
            Seq::empty()
        };
        if seg == "."@ {
            if rest.len() == 0 {
                None
            } else {
                spec_file_name(rest)
            }
        } else if seg == ".."@ {
            None
        } else {
            Some(seg)
        }
    }
}

/// One list element of a search-path value, `~` at its start expanded to
/// the home directory.
pub open spec fn spec_expand_segment(seg: Seq<char>, home: Seq<char>) -> Seq<char> {
    if seg.len() > 0 && seg[0] == '~' {
        home + seg.skip(1)
    } else {
        seg
    }
}

/// A search-path value with every element's leading `~` expanded: split on
/// `:`, each element expanded, joined with `:` again.
pub open spec fn spec_expand_tilde(s: Seq<char>, home: Seq<char>) -> Seq<char>
    decreases s.len(),
{
    let i = choose|i: int|
        0 <= i < s.len() && s[i] == ':' && (forall|j: int| 0 <= j < i ==> s[j] != ':');
    if 0 <= i < s.len() && s[i] == ':' {
        spec_expand_segment(s.subrange(0, i), home) + seq![':'] + spec_expand_tilde(
            s.skip(i + 1),
            home,
        )
    } else {
        spec_expand_segment(s, home)
    }
}

fn expand_segment(seg: &str, home: &str) -> (r: String)
    ensures
        r@ == spec_expand_segment(seg@, home@),
{
    proof {
        reveal_strlit("~");
    }
    if crate::strutil::starts_with_str(seg, "~") {
        let mut out = home.to_owned();
        let rest = seg.substring_char(1, seg.unicode_len());
        out.append(rest);
        proof {
            assert(seg@.subrange(1, seg@.len() as int) =~= seg@.skip(1));
            assert(seg@.subrange(0, "~"@.len() as int)[0] == seg@[0]);
        }
        out
    } else {
        proof {
            if seg@.len() > 0 && seg@[0] == '~' {
                assert(seg@.subrange(0, "~"@.len() as int) =~= "~"@);
            }
        }
        seg.to_owned()
    }
}

/// Expands a leading `~` of every `:`-separated element of a search-path
/// value to the home directory.
pub fn expand_tilde_in_path(path: &str, home: &str) -> (r: String)
    ensures
        r@ == spec_expand_tilde(path@, home@),
    decreases path@.len(),
{
    proof {
        reveal_strlit(":");
        assert(":"@ =~= seq![':']);
    }
    let len = path.unicode_len();
    match crate::strutil::find_char(path, ':') {
        Some(i) => {
            proof {
                crate::strutil::lemma_first_occurrence(path@, ':');
                let ci = choose|ci: int|
                    0 <= ci < path@.len() && path@[ci] == ':' && (forall|j: int|
                        0 <= j < ci ==> path@[j] != ':');
                if ci < i as int {
                    assert(path@[ci] != ':');
                }
                assert(path@.subrange(i + 1, len as int) =~= path@.skip(i + 1));
            }
            let seg = path.substring_char(0, i);
            let rest = path.substring_char(i + 1, len);
            let mut out = expand_segment(seg, home);
            let tail = expand_tilde_in_path(rest, home);
            out.append(":");
            out.append(tail.as_str());
            out
        },
        None => {
            proof {
                let ci = choose|ci: int|
                    0 <= ci < path@.len() && path@[ci] == ':' && (forall|j: int|
                        0 <= j < ci ==> path@[j] != ':');
                if 0 <= ci < path@.len() {
                    assert(path@[ci] != ':');
                }
            }
            expand_segment(path, home)
        },
    }
}

/// The position of the last occurrence of `c` in `s`.
fn find_char_last(s: &str, c: char) -> (r: Option<usize>)
    ensures
        match r {
            Some(i) => i < s@.len() && s@[i as int] == c && forall|j: int|
                i < j < s@.len() ==> s@[j] != c,
            None => forall|j: int| 0 <= j < s@.len() ==> s@[j] != c,
        },
{
    let len = s.unicode_len();
    let mut i: usize = len;
    while i > 0
        invariant
            i <= len,
            len == s@.len(),
            forall|j: int| i <= j < s@.len() ==> s@[j] != c,
        decreases i,
    {
        i -= 1;
        if s.get_char(i) == c {
            return Some(i);
        }
    }
    None
}

/// The final path component, as `spec_file_name` reads it.
pub fn file_name_of(path: &str) -> (r: Option<String>)
    ensures
        opt_str_view(r) == spec_file_name(path@),
    decreases path@.len(),
{
    proof {
        reveal_strlit(".");
        reveal_strlit("..");
    }
    let len = path.unicode_len();
    if len == 0 {
        return None;
    }
    if path.get_char(len - 1) == '/' {
        let parent = path.substring_char(0, len - 1);
        proof {
            assert(path@.subrange(0, len - 1) =~= path@.drop_last());
        }
        return file_name_of(parent);
    }
    match find_char_last(path, '/') {
        Some(i) => {
            proof {
                crate::strutil::lemma_last_occurrence(path@, '/');
                let ci = choose|ci: int|
                    0 <= ci < path@.len() && path@[ci] == '/' && (forall|j: int|
                        ci < j < path@.len() ==> path@[j] != '/');
                if ci < i as int {
                    assert(path@[i as int] != '/');
                } else if ci > i as int {
                    assert(path@[ci] != '/');
                }
                assert(path@.subrange(i + 1, len as int) =~= path@.skip(i + 1));
            }
            let seg = path.substring_char(i + 1, len);
            if str_eq(seg, ".") {
                if i == 0 {
                    proof {
                        assert(path@.subrange(0, 0) =~= Seq::<char>::empty());
                    }
                    None
                } else {
                    let rest = path.substring_char(0, i);
                    file_name_of(rest)
                }
            } else if str_eq(seg, "..") {
                None
            } else {
                Some(seg.to_owned())
            }
        },
        None => {
            proof {
                let ci = choose|ci: int|
                    0 <= ci < path@.len() && path@[ci] == '/' && (forall|j: int|
                        ci < j < path@.len() ==> path@[j] != '/');
                if 0 <= ci < path@.len() {
                    assert(path@[ci] != '/');
                }
            }
            if str_eq(path, ".") {
                None
            } else if str_eq(path, "..") {
                None
            } else {
                Some(path.to_owned())
            }
        },
    }
}

impl Vat {
    /// A manifest around the given package, with nothing else set.
    pub fn new(package: Package) -> (r: Vat)
        ensures
            r.package == package,
            r.package_path@.len() == 0,
            r.variables is None,
            r.env is None,
            r.cmd is None,
            r.dependencies is None,
            r.resolved_env@ == Map::<Seq<char>, Seq<char>>::empty(),
    {
        Vat {
            package_path: String::new(),
            package,
            variables: None,
            env: None,
            cmd: None,
            dependencies: None,
            resolved_env: EnvMap::new(),
        }
    }

    /// Decides an initialization, given what the file system answered: no
    /// derivable name rejects the path; a manifest already present rejects
    /// the package; a missing directory is only created on request.  The
    /// fresh manifest carries the path's final segment as its name and
    /// version `0.1.0`.
    pub fn plan_init(path: &str, create: bool, manifest_present: bool, dir_present: bool) -> (r:
        Result<Vat, PackageError>)
        ensures
            match r {
                Ok(v) => {
                    &&& spec_file_name(path@) matches Some(n) && v.package.name@ == n
                    &&& !manifest_present
                    &&& create || dir_present
                    &&& v.package.version == (Version { major: 0, minor: 1, patch: 0 })
                    &&& v.package_path@ == path@
                    &&& v.variables is None && v.env is None && v.cmd is None
                    &&& v.dependencies is None
                    &&& v.resolved_env@ == Map::<Seq<char>, Seq<char>>::empty()
                },
                Err(e) => match e {
                    PackageError::InvalidPackage(s) => spec_file_name(path@) is None && s@
                        == "Path is not a valid package"@,
                    PackageError::PackageAlreadyExists(s) => spec_file_name(path@) is Some
                        && manifest_present && s@ == spec_path_join(path@, "vat.toml"@),
                    PackageError::PackageNotFound(s) => spec_file_name(path@) is Some
                        && !manifest_present && !create && !dir_present && s@ == path@,
                    _ => false,
                },
            },
    {
        let name: String = match file_name_of(path) {
            Some(n) => n,
            None => {
                return Err(
                    PackageError::InvalidPackage("Path is not a valid package".to_owned()),
                );
            },
        };
        if manifest_present {
            let manifest_path = path_join(path, "vat.toml");
            return Err(PackageError::PackageAlreadyExists(manifest_path));
        }
        if !create && !dir_present {
            return Err(PackageError::PackageNotFound(path.to_owned()));
        }
        let package = Package::new(name, Version::new(0, 1, 0));
        let mut vat = Vat::new(package);
        vat.package_path = path.to_owned();
        Ok(vat)
    }

    /// Initializes a package at `path`, asking the file system whether the
    /// directory is already a package and whether it exists; the caller
    /// creates the directory, the working tree and the manifest file.
    pub fn init(path: &str, create: bool) -> (r: Result<Vat, PackageError>)
        ensures
            (spec_file_name(path@) is None) <==> (r matches Err(PackageError::InvalidPackage(_))),
            match r {
                Ok(v) => {
                    &&& spec_file_name(path@) matches Some(n) && v.package.name@ == n
                    &&& v.package.version == (Version { major: 0, minor: 1, patch: 0 })
                    &&& v.package_path@ == path@
                    &&& v.variables is None && v.env is None && v.cmd is None
                    &&& v.resolved_env@ == Map::<Seq<char>, Seq<char>>::empty()
                },
                Err(e) => match e {
                    PackageError::InvalidPackage(s) => spec_file_name(path@) is None && s@
                        == "Path is not a valid package"@,
                    PackageError::PackageAlreadyExists(s) => s@ == spec_path_join(
                        path@,
                        "vat.toml"@,
                    ),
                    PackageError::PackageNotFound(s) => !create && s@ == path@,
                    _ => false,
                },
            },
    {
        let manifest_path = path_join(path, "vat.toml");
        let manifest_present = path_exists(manifest_path.as_str());
        let dir_present = path_exists(path);
        Vat::plan_init(path, create, manifest_present, dir_present)
    }

    /// Whether the manifest's directory holds a manifest file on disk.
    pub fn is_package(&self) -> bool {
        let manifest_path = path_join(self.package_path.as_str(), "vat.toml");
        path_exists(manifest_path.as_str())
    }

    /// The directory this manifest was loaded from.
    pub fn package_path(&self) -> (r: String)
        ensures
            r@ == self.package_path@,
    {
        self.package_path.clone()
    }

    /// The manifest's version.
    pub fn package_version(&self) -> (r: Version)
        ensures
            r == self.package.version,
    {
        self.package.version
    }

    /// Replaces the transient resolved environment (the seed for the next
    /// resolution).
    pub fn set_resolved_env(&mut self, resolved_env: EnvMap)
        ensures
            final(self).resolved_env == resolved_env,
            final(self).package == old(self).package,
            final(self).package_path == old(self).package_path,
            final(self).variables == old(self).variables,
            final(self).env == old(self).env,
            final(self).cmd == old(self).cmd,
            final(self).dependencies == old(self).dependencies,
    {
        self.resolved_env = resolved_env;
    }

    /// Bumps the version: the highest requested component is incremented
    /// and every lower one zeroed; with no component requested the version
    /// is unchanged.
    pub fn increment_version(&mut self, major: bool, minor: bool, patch: bool)
        requires
            major ==> old(self).package.version.major < u64::MAX,
            !major && minor ==> old(self).package.version.minor < u64::MAX,
            !major && !minor && patch ==> old(self).package.version.patch < u64::MAX,
        ensures
            *final(self) == (Vat {
                package: (Package {
                    version: old(self).package.version.spec_bumped(major, minor, patch),
                    ..old(self).package
                }),
                ..*old(self)
            }),
    {
        let bumped = self.package.version.bumped(major, minor, patch);
        self.package.version = bumped;
    }

    /// Synchronizes the version with the latest tag — or `0.0.0` where no
    /// tag exists yet — and then bumps it.
    pub fn up_prompt(&mut self, latest_tag: Option<Version>, major: bool, minor: bool, patch: bool)
        requires
            major ==> (latest_tag matches Some(t) ==> t.major < u64::MAX),
            !major && minor ==> (latest_tag matches Some(t) ==> t.minor < u64::MAX),
            !major && !minor && patch ==> (latest_tag matches Some(t) ==> t.patch < u64::MAX),
        ensures
            *final(self) == (Vat {
                package: (Package {
                    version: (match latest_tag {
                        Some(t) => t,
                        None => Version { major: 0, minor: 0, patch: 0 },
                    }).spec_bumped(major, minor, patch),
                    ..old(self).package
                }),
                ..*old(self)
            }),
    {
        match latest_tag {
            Some(t) => {
                self.package.version = t;
            },
            None => {
                self.package.version = Version::new(0, 0, 0);
            },
        }
        self.increment_version(major, minor, patch);
    }

    /// Substitutes `{root}` in a rule value with this manifest's directory.
    pub fn path_resolve(&self, path: &str) -> (r: String)
        ensures
            r@ == spec_replace(path@, "{root}"@, self.package_path@),
    {
        proof {
            reveal_strlit("{root}");
        }
        replace_str(path, "{root}", self.package_path.as_str())
    }

    /// Resolves this manifest's environment rules on top of the current
    /// resolved environment, with `host` as the fallback for variables not
    /// set this invocation.
    pub fn resolve_env(&mut self, host: &EnvMap, platform: Platform)
        ensures
            final(self).resolved_env@ == match old(self).env {
                Some(env) => env.spec_resolved(
                    old(self).resolved_env@,
                    host@,
                    old(self).package_path@,
                    platform,
                ),
                None => old(self).resolved_env@,
            },
            final(self).package == old(self).package,
            final(self).package_path == old(self).package_path,
            final(self).variables == old(self).variables,
            final(self).env == old(self).env,
            final(self).cmd == old(self).cmd,
            final(self).dependencies == old(self).dependencies,
    {
        match &self.env {
            Some(env) => {
                crate::environment::resolve_env_rules(
                    env,
                    &mut self.resolved_env,
                    host,
                    self.package_path.as_str(),
                    platform,
                );
            },
            None => {},
        }
    }

    /// Decides a launch: looks the command up for the platform, merges the
    /// resolved environment with the caller's additions (which win), and —
    /// foreground only — appends the additional arguments.  Fails exactly
    /// when no command table, no entry, or an empty argument list leaves
    /// nothing to run.
    pub fn plan_run(
        &self,
        command_name: &str,
        platform: Platform,
        detach: bool,
        add_env: Option<&EnvMap>,
        additional_cmds: Option<&Vec<String>>,
    ) -> (r: Result<RunPlan, PackageError>)
        requires
            self.cmd matches Some(c) ==> c.wf(),
        ensures
            (r is Ok) <==> (match self.cmd {
                Some(cmds) => match cmds.spec_get_command(command_name@, platform) {
                    Some(cv) => cv.0.len() > 0,
                    None => false,
                },
                None => false,
            }),
            match r {
                Ok(plan) => match self.cmd {
                    Some(cmds) => match cmds.spec_get_command(command_name@, platform) {
                        Some(cv) => {
                            &&& plan.program@ == cv.0[0]
                            &&& strs_view(plan.args@) == cv.0.skip(1) + (
                            if !detach {
                                match additional_cmds {
                                    Some(extras) => strs_view(extras@),
                                    None => Seq::empty(),
                                }
                            } else {
                                Seq::empty()
                            })
                            &&& plan.env@ == (match add_env {
                                Some(m) => self.resolved_env@.union_prefer_right(m@),
                                None => self.resolved_env@,
                            })
                            &&& opt_str_view(plan.cwd) == cv.1
                            &&& plan.detach == detach
                        },
                        None => false,
                    },
                    None => false,
                },
                Err(e) => e matches PackageError::CommandNotFound(s) && s@ == command_name@,
            },
    {
        let cmds = match &self.cmd {
            Some(cmds) => cmds,
            None => {
                return Err(PackageError::CommandNotFound(command_name.to_owned()));
            },
        };
        let command = match cmds.get_command(command_name, platform) {
            Some(c) => c,
            None => {
                return Err(PackageError::CommandNotFound(command_name.to_owned()));
            },
        };
        if command.values.len() == 0 {
            return Err(PackageError::CommandNotFound(command_name.to_owned()));
        }
        let program = command.values[0].clone();
        let mut args: Vec<String> = Vec::new();
        let mut i: usize = 1;
        proof {
            assert(args@ =~= command.values@.subrange(1, 1));
        }
        while i < command.values.len()
            invariant
                1 <= i <= command.values.len(),
                args@ == command.values@.subrange(1, i as int),
            decreases command.values.len() - i,
        {
            args.push(command.values[i].clone());
            proof {
                assert(args@ =~= command.values@.subrange(1, i + 1));
            }
            i += 1;
        }
        proof {
            assert(command.values@.subrange(1, command.values@.len() as int) =~= command.values@.skip(
                1,
            ));
        }
        let ghost base_args = args@;
        if !detach {
            match additional_cmds {
                Some(extras) => {
                    let mut k: usize = 0;
                    proof {
                        assert(args@ =~= base_args + extras@.subrange(0, 0));
                    }
                    while k < extras.len()
                        invariant
                            k <= extras.len(),
                            args@ == base_args + extras@.subrange(0, k as int),
                        decreases extras.len() - k,
                    {
                        args.push(extras[k].clone());
                        proof {
                            assert(args@ =~= base_args + extras@.subrange(0, k + 1));
                        }
                        k += 1;
                    }
                    proof {
                        assert(extras@.subrange(0, extras@.len() as int) =~= extras@);
                    }
                },
                None => {},
            }
        }
        let mut env = self.resolved_env.duplicate();
        match add_env {
            Some(m) => {
                env.extend_from(m);
            },
            None => {},
        }
        let plan = RunPlan { program, args, env, cwd: command.cwd, detach };
        proof {
            let cv = self.cmd->Some_0.spec_get_command(command_name@, platform)->Some_0;
            assert(strs_view(plan.args@) =~= cv.0.skip(1) + (
            if !detach {
                match additional_cmds {
                    Some(extras) => strs_view(extras@),
                    None => Seq::<Seq<char>>::empty(),
                }
            } else {
                Seq::<Seq<char>>::empty()
            }));
        }
        Ok(plan)
    }
}

} // verus!
