//! The repository: the persisted registry of all packages.  Loading and
//! saving the registry document, exporting archives and deleting directories
//! are I/O and stay outside the library; every decision — what publishing,
//! linking, removing and resolving do to the registry — is made and proved
//! here.

use vstd::prelude::*;

use crate::address::PackageName;
use crate::address::PackageVersion;
use crate::assoc::assoc_map;
use crate::assoc::keys_unique;
use crate::assoc::lemma_assoc_contains;
use crate::assoc::lemma_assoc_get;
use crate::assoc::lemma_assoc_push;
use crate::assoc::lemma_assoc_remove;
use crate::assoc::lemma_assoc_update;
use crate::envmap::EnvMap;
use crate::environment::resolve_env_rules;
use crate::errors::RepositoryError;
use crate::paths::path_join;
use crate::paths::spec_path_join;
use crate::platform::Platform;
use crate::registry::PackageRegistry;
use crate::registry::PackageRegistryView;
use crate::registry::RepoPackage;
use crate::registry::RepoPackageView;
use crate::strutil::concat_str;
use crate::strutil::opt_str_view;
use crate::strutil::str_eq;
use crate::vat::Vat;
use crate::version::Version;

verus! {

broadcast use vstd::string::group_string_axioms;

/// The registry's records as `(name, record)` pairs, in stored order.
pub open spec fn regs_view(s: Seq<(String, PackageRegistry)>) -> Seq<
    (Seq<char>, PackageRegistryView),
> {
    s.map_values(|p: (String, PackageRegistry)| (p.0@, p.1@))
}

/// The registry of all packages, plus the repository root it was loaded
/// against (never persisted).
#[derive(Debug)]
pub struct Repository {
    pub packages: Vec<(String, PackageRegistry)>,
    pub repository_path: String,
}

impl View for Repository {
    type V = Map<Seq<char>, PackageRegistryView>;

    open spec fn view(&self) -> Map<Seq<char>, PackageRegistryView> {
        assoc_map(regs_view(self.packages@))
    }
}

/// Whether a publication of `(name, version)` is accepted: it is exactly
/// when that pair is not yet recorded.
pub open spec fn spec_publish_allowed(
    m: Map<Seq<char>, PackageRegistryView>,
    name: Seq<char>,
    version: Version,
) -> bool {
    !(m.dom().contains(name) && m[name].versions.dom().contains(version))
}

/// What an accepted publication does to the registry: the name's record —
/// a fresh one for a first publication — gets the version added to its
/// immutable map, and its main link refreshed to the live checkout.
pub open spec fn spec_publish(
    m: Map<Seq<char>, PackageRegistryView>,
    name: Seq<char>,
    version: Version,
    main: Seq<char>,
    rp: RepoPackageView,
) -> Map<Seq<char>, PackageRegistryView> {
    let versions = if m.dom().contains(name) {
        m[name].versions
    } else {
        Map::empty()
    };
    m.insert(
        name,
        PackageRegistryView { main_branch_path: main, versions: versions.insert(version, rp) },
    )
}

impl Repository {
    /// Package names are unique and every record is well formed.
    pub open spec fn wf(&self) -> bool {
        &&& keys_unique(regs_view(self.packages@))
        &&& forall|i: int| 0 <= i < self.packages@.len() ==> (
        #[trigger] self.packages@[i]).1.wf()
    }

    /// An empty registry.
    pub fn new() -> (r: Repository)
        ensures
            r.wf(),
            r@ == Map::<Seq<char>, PackageRegistryView>::empty(),
            r.repository_path@.len() == 0,
    {
        let r = Repository { packages: Vec::new(), repository_path: String::new() };
        proof {
            assert(regs_view(r.packages@) =~= Seq::<(Seq<char>, PackageRegistryView)>::empty());
        }
        r
    }

    fn index_of(&self, name: &str) -> (r: Option<usize>)
        ensures
            match r {
                Some(i) => i < self.packages@.len() && regs_view(self.packages@)[i as int].0
                    == name@,
                None => forall|i: int| 0 <= i < self.packages@.len() ==> regs_view(
                    self.packages@,
                )[i].0 != name@,
            },
    {
        let mut i: usize = 0;
        while i < self.packages.len()
            invariant
                i <= self.packages.len(),
                forall|j: int| 0 <= j < i ==> regs_view(self.packages@)[j].0 != name@,
            decreases self.packages.len() - i,
        {
            if str_eq(self.packages[i].0.as_str(), name) {
                return Some(i);
            }
            i += 1;
        }
        None
    }

    /// The record of a name, when one exists.
    pub fn get_package(&self, package_name: &str) -> (r: Option<&PackageRegistry>)
        requires
            self.wf(),
        ensures
            match r {
                Some(reg) => self@.dom().contains(package_name@) && reg@ == self@[package_name@]
                    && reg.wf(),
                None => !self@.dom().contains(package_name@),
            },
    {
        match self.index_of(package_name) {
            Some(i) => {
                proof {
                    lemma_assoc_get(regs_view(self.packages@), i as int);
                }
                Some(&self.packages[i].1)
            },
            None => {
                proof {
                    lemma_assoc_contains(regs_view(self.packages@), package_name@);
                }
                None
            },
        }
    }

    /// The record an address names, when one exists.
    pub fn get_package_by_package_name(&self, package_name: &PackageName) -> (r: Option<
        &PackageRegistry,
    >)
        requires
            self.wf(),
        ensures
            match r {
                Some(reg) => self@.dom().contains(package_name.name@) && reg@
                    == self@[package_name.name@] && reg.wf(),
                None => !self@.dom().contains(package_name.name@),
            },
    {
        self.get_package(package_name.name.as_str())
    }

    /// The records, for enumeration.
    pub fn list_packages(&self) -> (r: &Vec<(String, PackageRegistry)>)
        ensures
            r == &self.packages,
            assoc_map(regs_view(r@)) == self@,
    {
        &self.packages
    }

    /// Whether `(name, version)` is already published.
    pub fn package_exists(&self, package_name: &str, version: &Version) -> (r: bool)
        requires
            self.wf(),
        ensures
            r == (self@.dom().contains(package_name@)
                && self@[package_name@].versions.dom().contains(*version)),
    {
        match self.get_package(package_name) {
            Some(reg) => reg.has_version(version),
            None => false,
        }
    }

    /// Publishes a manifest: refused exactly when its `(name, version)` is
    /// already recorded; otherwise the registry gains the version — keyed
    /// under the archive directory `<root>/<name>/<version>` and carrying
    /// the message — and the name's main link is refreshed to the live
    /// checkout.
    pub fn publish(&mut self, package: &Vat, message: &str) -> (r: Result<(), RepositoryError>)
        requires
            old(self).wf(),
        ensures
            final(self).wf(),
            final(self).repository_path == old(self).repository_path,
            (r is Err) <==> !spec_publish_allowed(
                old(self)@,
                package.package.name@,
                package.package.version,
            ),
            r matches Err(e) ==> {
                &&& final(self)@ == old(self)@
                &&& final(self).packages == old(self).packages
                &&& e matches RepositoryError::PackageAlreadyExists(s) && s@ == "Package "@
                    + package.package.name@ + " version "@ + package.package.version.spec_str()
                    + " has been published"@
            },
            r is Ok ==> final(self)@ == spec_publish(
                old(self)@,
                package.package.name@,
                package.package.version,
                package.package_path@,
                RepoPackageView {
                    name: package.package.name@,
                    version: package.package.version,
                    package_path: spec_path_join(
                        spec_path_join(old(self).repository_path@, package.package.name@),
                        package.package.version.spec_str(),
                    ),
                    repository: opt_str_view(package.package.repository),
                    message: Some(message@),
                },
            ),
    {
        let name = &package.package.name;
        let version = package.package.version;
        if self.package_exists(name.as_str(), &version) {
            let mut text = concat_str("Package ", name.as_str());
            text.append(" version ");
            let vtext = version.text();
            text.append(vtext.as_str());
            text.append(" has been published");
            return Err(RepositoryError::PackageAlreadyExists(text));
        }
        let name_dir = path_join(self.repository_path.as_str(), name.as_str());
        let vtext = version.text();
        let archive_path = path_join(name_dir.as_str(), vtext.as_str());
        let mut rp = RepoPackage::from_vat(package);
        rp.package_path = archive_path;
        rp.message = Some(message.to_owned());
        let ghost pre = regs_view(self.packages@);
        let ghost rpv = rp@;
        match self.index_of(name.as_str()) {
            Some(i) => {
                proof {
                    lemma_assoc_get(pre, i as int);
                }
                let mut pair = self.packages.remove(i);
                proof {
                    assert(old(self).packages@[i as int] == pair);
                }
                pair.1.link_package(package.package_path.clone());
                pair.1.add_package(rp);
                let ghost newreg = pair.1@;
                self.packages.insert(i, pair);
                proof {
                    assert(regs_view(self.packages@) =~= pre.update(
                        i as int,
                        (package.package.name@, newreg),
                    ));
                    lemma_assoc_update(pre, i as int, newreg);
                    assert(pre.update(i as int, (package.package.name@, newreg)) =~= pre.update(
                        i as int,
                        (pre[i as int].0, newreg),
                    ));
                    assert(self@ =~= spec_publish(
                        old(self)@,
                        package.package.name@,
                        version,
                        package.package_path@,
                        rpv,
                    ));
                    assert forall|j: int| 0 <= j < self.packages@.len() implies (
                    #[trigger] self.packages@[j]).1.wf() by {
                        if j != i {
                            assert(self.packages@[j] == old(self).packages@[j]);
                        }
                    }
                }
            },
            None => {
                proof {
                    lemma_assoc_contains(pre, package.package.name@);
                }
                let mut reg = PackageRegistry::new();
                reg.link_package(package.package_path.clone());
                reg.add_package(rp);
                let ghost regv = reg@;
                proof {
                    lemma_assoc_push(pre, package.package.name@, regv);
                }
                self.packages.push((name.clone(), reg));
                proof {
                    assert(regs_view(self.packages@) =~= pre.push(
                        (package.package.name@, regv),
                    ));
                    assert(self@ =~= spec_publish(
                        old(self)@,
                        package.package.name@,
                        version,
                        package.package_path@,
                        rpv,
                    ));
                    assert forall|j: int| 0 <= j < self.packages@.len() implies (
                    #[trigger] self.packages@[j]).1.wf() by {
                        if j < self.packages@.len() - 1 {
                            assert(self.packages@[j] == old(self).packages@[j]);
                        }
                    }
                }
            },
        }
        Ok(())
    }

    /// Links a live checkout under its name: a first-time operation,
    /// refused exactly when the name is already registered.
    pub fn link_package(&mut self, package: &Vat) -> (r: Result<(), RepositoryError>)
        requires
            old(self).wf(),
        ensures
            final(self).wf(),
            final(self).repository_path == old(self).repository_path,
            (r is Err) <==> old(self)@.dom().contains(package.package.name@),
            r matches Err(e) ==> {
                &&& final(self)@ == old(self)@
                &&& final(self).packages == old(self).packages
                &&& e matches RepositoryError::PackageAlreadyExists(s) && s@ == "Package "@
                    + package.package.name@ + " has already been linked"@
            },
            r is Ok ==> final(self)@ == old(self)@.insert(
                package.package.name@,
                PackageRegistryView {
                    main_branch_path: package.package_path@,
                    versions: Map::empty(),
                },
            ),
    {
        let name = &package.package.name;
        let ghost pre = regs_view(self.packages@);
        match self.index_of(name.as_str()) {
            Some(i) => {
                proof {
                    lemma_assoc_get(pre, i as int);
                }
                let mut text = concat_str("Package ", name.as_str());
                text.append(" has already been linked");
                Err(RepositoryError::PackageAlreadyExists(text))
            },
            None => {
                proof {
                    lemma_assoc_contains(pre, package.package.name@);
                }
                let mut reg = PackageRegistry::new();
                reg.link_package(package.package_path.clone());
                let ghost regv = reg@;
                proof {
                    lemma_assoc_push(pre, package.package.name@, regv);
                }
                self.packages.push((name.clone(), reg));
                proof {
                    assert(regs_view(self.packages@) =~= pre.push(
                        (package.package.name@, regv),
                    ));
                    assert(self@ =~= old(self)@.insert(
                        package.package.name@,
                        PackageRegistryView {
                            main_branch_path: package.package_path@,
                            versions: Map::empty(),
                        },
                    ));
                    assert forall|j: int| 0 <= j < self.packages@.len() implies (
                    #[trigger] self.packages@[j]).1.wf() by {
                        if j < self.packages@.len() - 1 {
                            assert(self.packages@[j] == old(self).packages@[j]);
                        }
                    }
                }
                Ok(())
            },
        }
    }

    /// Deletes a name's record; the caller deletes the on-disk archive
    /// directory.  A name that is not registered is left as it is.
    pub fn remove_package(&mut self, package_name: &str)
        requires
            old(self).wf(),
        ensures
            final(self).wf(),
            final(self).repository_path == old(self).repository_path,
            final(self)@ == old(self)@.remove(package_name@),
    {
        let ghost pre = regs_view(self.packages@);
        match self.index_of(package_name) {
            Some(i) => {
                proof {
                    lemma_assoc_remove(pre, i as int);
                }
                self.packages.remove(i);
                proof {
                    assert(regs_view(self.packages@) =~= pre.remove(i as int));
                    assert forall|j: int| 0 <= j < self.packages@.len() implies (
                    #[trigger] self.packages@[j]).1.wf() by {
                        if j < i {
                            assert(self.packages@[j] == old(self).packages@[j]);
                        } else {
                            assert(self.packages@[j] == old(self).packages@[j + 1]);
                        }
                    }
                }
            },
            None => {
                proof {
                    lemma_assoc_contains(pre, package_name@);
                    assert(self@ =~= old(self)@.remove(package_name@));
                }
            },
        }
    }

    /// Resolves an address to a directory: nothing for an unregistered
    /// name; otherwise `main` to the main link, an exact version to its
    /// archive, and `latest` to the archive of the greatest version
    /// present.
    pub fn resolve_address(&self, package_name: &PackageName) -> (r: Option<String>)
        requires
            self.wf(),
        ensures
            !self@.dom().contains(package_name.name@) ==> r is None,
            self@.dom().contains(package_name.name@) ==> {
                let reg = self@[package_name.name@];
                match package_name.version {
                    PackageVersion::Main => opt_str_view(r) == Some(reg.main_branch_path),
                    PackageVersion::Version(v) => opt_str_view(r) == (
                    if reg.versions.dom().contains(v) {
                        Some(reg.versions[v].package_path)
                    } else {
                        Option::<Seq<char>>::None
                    }),
                    PackageVersion::Latest => {
                        &&& (r is Some) <==> exists|v: Version|
                            #[trigger] reg.versions.dom().contains(v)
                        &&& r matches Some(p) ==> exists|m: Version|
                            {
                                &&& #[trigger] reg.versions.dom().contains(m)
                                &&& p@ == reg.versions[m].package_path
                                &&& forall|v: Version| reg.versions.dom().contains(v)
                                    ==> !m.spec_lt(v)
                            }
                    },
                }
            },
    {
        match self.get_package_by_package_name(package_name) {
            Some(reg) => {
                proof {
                    lemma_assoc_contains(
                        crate::registry::versions_view(reg.versions@),
                        choose|v: Version| #[trigger] reg@.versions.dom().contains(v),
                    );
                    if reg.versions@.len() > 0 {
                        lemma_assoc_get(crate::registry::versions_view(reg.versions@), 0);
                    }
                }
                reg.get_package_path(package_name)
            },
            None => None,
        }
    }

    /// Folds the environments of the given manifests, in the given order,
    /// into one mapping: each manifest's rules resolve on top of what the
    /// earlier ones produced.
    pub fn compose_env(manifests: &Vec<Vat>, host: &EnvMap, platform: Platform) -> (r: EnvMap)
        ensures
            r@ == spec_compose(manifests@, host@, platform),
    {
        let mut acc = EnvMap::new();
        let mut i: usize = 0;
        proof {
            assert(manifests@.subrange(0, 0) =~= Seq::<Vat>::empty());
        }
        while i < manifests.len()
            invariant
                i <= manifests.len(),
                acc@ == spec_compose(manifests@.subrange(0, i as int), host@, platform),
            decreases manifests.len() - i,
        {
            proof {
                assert(manifests@.subrange(0, i + 1).drop_last() =~= manifests@.subrange(
                    0,
                    i as int,
                ));
                assert(manifests@.subrange(0, i + 1).last() == manifests@[i as int]);
            }
            let vat = &manifests[i];
            match &vat.env {
                Some(env) => {
                    resolve_env_rules(
                        env,
                        &mut acc,
                        host,
                        vat.package_path.as_str(),
                        platform,
                    );
                },
                None => {},
            }
            i += 1;
        }
        proof {
            assert(manifests@.subrange(0, manifests@.len() as int) =~= manifests@);
        }
        acc
    }
}

/// The composed environment of a list of manifests, in order: each one's
/// rules resolved on top of the previous result.
pub open spec fn spec_compose(
    manifests: Seq<Vat>,
    host: Map<Seq<char>, Seq<char>>,
    platform: Platform,
) -> Map<Seq<char>, Seq<char>>
    decreases manifests.len(),
{
    if manifests.len() == 0 {
        Map::empty()
    } else {
        let prev = spec_compose(manifests.drop_last(), host, platform);
        match manifests.last().env {
            Some(env) => env.spec_resolved(
                prev,
                host,
                manifests.last().package_path@,
                platform,
            ),
            None => prev,
        }
    }
}

/// Publishing a pair twice is refused the second time, while a second,
/// different version of the same name goes through, and both versions stay
/// independently recorded afterwards.
pub proof fn lemma_publish_twice(
    m: Map<Seq<char>, PackageRegistryView>,
    name: Seq<char>,
    v1: Version,
    v2: Version,
    main1: Seq<char>,
    main2: Seq<char>,
    rp1: RepoPackageView,
    rp2: RepoPackageView,
)
    requires
        spec_publish_allowed(m, name, v1),
        spec_publish_allowed(m, name, v2),
    ensures
        !spec_publish_allowed(spec_publish(m, name, v1, main1, rp1), name, v1),
        v2 != v1 ==> spec_publish_allowed(spec_publish(m, name, v1, main1, rp1), name, v2),
        v2 != v1 ==> {
            let m2 = spec_publish(spec_publish(m, name, v1, main1, rp1), name, v2, main2, rp2);
            &&& m2[name].versions.dom().contains(v1) && m2[name].versions[v1] == rp1
            &&& m2[name].versions.dom().contains(v2) && m2[name].versions[v2] == rp2
        },
{
}

/// Two different versions of one name are archived under two different
/// directories: with `lemma_publish_twice` and `publish`'s own contract
/// (which records each version under `<root>/<name>/<version>`), two
/// published versions of a name stay independently resolvable, each to its
/// own path.
pub proof fn lemma_published_paths_distinct(
    root: Seq<char>,
    name: Seq<char>,
    v1: Version,
    v2: Version,
)
    requires
        v1 != v2,
    ensures
        spec_path_join(spec_path_join(root, name), v1.spec_str()) != spec_path_join(
            spec_path_join(root, name),
            v2.spec_str(),
        ),
{
    if spec_path_join(spec_path_join(root, name), v1.spec_str()) == spec_path_join(
        spec_path_join(root, name),
        v2.spec_str(),
    ) {
        crate::paths::lemma_path_join_cancels(
            spec_path_join(root, name),
            v1.spec_str(),
            v2.spec_str(),
        );
        crate::version::lemma_version_str_injective(v1, v2);
    }
}

/// A removed name has no record left, so no address of it — any selector —
/// resolves afterwards.
pub proof fn lemma_remove_unresolvable(m: Map<Seq<char>, PackageRegistryView>, name: Seq<char>)
    ensures
        !m.remove(name).dom().contains(name),
{
}

} // verus!
