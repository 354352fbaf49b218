//! One package's record in the repository: the mutable link to its live
//! working directory, and the immutable map of its published versions.

use vstd::prelude::*;

use crate::address::PackageName;
use crate::address::PackageVersion;
use crate::assoc::assoc_map;
use crate::assoc::keys_unique;
use crate::assoc::lemma_assoc_contains;
use crate::assoc::lemma_assoc_get;
use crate::assoc::lemma_assoc_push;
use crate::assoc::lemma_assoc_update;
use crate::strutil::opt_str_view;
use crate::vat::Vat;
use crate::version::Version;

verus! {

/// What one published version's record holds.
pub ghost struct RepoPackageView {
    pub name: Seq<char>,
    pub version: Version,
    pub package_path: Seq<char>,
    pub repository: Option<Seq<char>>,
    pub message: Option<Seq<char>>,
}

/// One published, immutable version: where its extracted snapshot lives in
/// the repository, and what was said when it was published.
#[derive(Debug, Clone, PartialEq, Eq)]
pub struct RepoPackage {
    pub name: String,
    pub version: Version,
    pub package_path: String,
    pub repository: Option<String>,
    pub message: Option<String>,
}

impl View for RepoPackage {
    type V = RepoPackageView;

    open spec fn view(&self) -> RepoPackageView {
        RepoPackageView {
            name: self.name@,
            version: self.version,
            package_path: self.package_path@,
            repository: opt_str_view(self.repository),
            message: opt_str_view(self.message),
        }
    }
}

impl RepoPackage {
    /// The record a manifest publishes as: its identity and its declared
    /// upstream, with the archive path and the message still to be set.
    pub fn from_vat(vat: &Vat) -> (r: RepoPackage)
        ensures
            r@ == (RepoPackageView {
                name: vat.package.name@,
                version: vat.package.version,
                package_path: Seq::empty(),
                repository: opt_str_view(vat.package.repository),
                message: None,
            }),
    {
        let repository = match &vat.package.repository {
            Some(u) => Some(u.clone()),
            None => None,
        };
        let r = RepoPackage {
            name: vat.package.name.clone(),
            version: vat.package.version,
            package_path: String::new(),
            repository,
            message: None,
        };
        r
    }
}

/// The published versions as `(version, record)` pairs, in stored order.
pub open spec fn versions_view(s: Seq<(Version, RepoPackage)>) -> Seq<(Version, RepoPackageView)> {
    s.map_values(|p: (Version, RepoPackage)| (p.0, p.1@))
}

/// What one package's registry record holds.
pub ghost struct PackageRegistryView {
    pub main_branch_path: Seq<char>,
    pub versions: Map<Version, RepoPackageView>,
}

/// One package's record: the main link and the published versions.
#[derive(Debug, Clone, PartialEq, Eq)]
pub struct PackageRegistry {
    pub main_branch_path: String,
    pub versions: Vec<(Version, RepoPackage)>,
}

impl View for PackageRegistry {
    type V = PackageRegistryView;

    open spec fn view(&self) -> PackageRegistryView {
        PackageRegistryView {
            main_branch_path: self.main_branch_path@,
            versions: assoc_map(versions_view(self.versions@)),
        }
    }
}

impl PackageRegistry {
    /// Versions are unique and each record carries the version it is
    /// keyed by.
    pub open spec fn wf(&self) -> bool {
        &&& keys_unique(versions_view(self.versions@))
        &&& forall|i: int| 0 <= i < self.versions@.len() ==> (#[trigger] self.versions@[i]).1.version
            == self.versions@[i].0
    }

    /// An empty record.
    pub fn new() -> (r: PackageRegistry)
        ensures
            r.wf(),
            r@.main_branch_path == Seq::<char>::empty(),
            r@.versions == Map::<Version, RepoPackageView>::empty(),
            r.versions@.len() == 0,
    {
        let r = PackageRegistry { main_branch_path: String::new(), versions: Vec::new() };
        proof {
            assert(versions_view(r.versions@) =~= Seq::<(Version, RepoPackageView)>::empty());
        }
        r
    }

    /// Records a published version, keyed by the record's own version.
    pub fn add_package(&mut self, package: RepoPackage)
        requires
            old(self).wf(),
        ensures
            final(self).wf(),
            final(self)@.versions == old(self)@.versions.insert(package.version, package@),
            final(self)@.main_branch_path == old(self)@.main_branch_path,
    {
        let ghost pre = versions_view(self.versions@);
        let v = package.version;
        let mut i: usize = 0;
        while i < self.versions.len()
            invariant
                i <= self.versions.len(),
                self == old(self),
                pre == versions_view(self.versions@),
                old(self).wf(),
                v == package.version,
                forall|j: int| 0 <= j < i ==> pre[j].0 != v,
            decreases self.versions.len() - i,
        {
            if self.versions[i].0 == v {
                proof {
                    lemma_assoc_update(pre, i as int, package@);
                    assert(pre.update(i as int, (v, package@)) =~= pre.update(
                        i as int,
                        (pre[i as int].0, package@),
                    ));
                    assert(versions_view(self.versions@.update(i as int, (v, package)))
                        =~= pre.update(i as int, (v, package@)));
                }
                self.versions[i] = (v, package);
                proof {
                    assert(versions_view(self.versions@) =~= pre.update(i as int, (v, package@)));
                    assert forall|j: int| 0 <= j < self.versions@.len() implies (
                    #[trigger] self.versions@[j]).1.version == self.versions@[j].0 by {
                        if j != i {
                            assert(self.versions@[j] == old(self).versions@[j]);
                        }
                    }
                }
                return ;
            }
            i += 1;
        }
        proof {
            lemma_assoc_push(pre, v, package@);
            assert(versions_view(self.versions@.push((v, package))) =~= pre.push((v, package@)));
        }
        self.versions.push((v, package));
        proof {
            assert(versions_view(self.versions@) =~= pre.push((v, package@)));
            assert forall|j: int| 0 <= j < self.versions@.len() implies (
            #[trigger] self.versions@[j]).1.version == self.versions@[j].0 by {
                if j < self.versions@.len() - 1 {
                    assert(self.versions@[j] == old(self).versions@[j]);
                }
            }
        }
    }

    /// Whether a version is recorded.
    pub fn has_version(&self, v: &Version) -> (r: bool)
        requires
            self.wf(),
        ensures
            r == self@.versions.dom().contains(*v),
    {
        let mut i: usize = 0;
        while i < self.versions.len()
            invariant
                i <= self.versions.len(),
                self.wf(),
                forall|j: int| 0 <= j < i ==> versions_view(self.versions@)[j].0 != *v,
            decreases self.versions.len() - i,
        {
            if self.versions[i].0 == *v {
                proof {
                    lemma_assoc_get(versions_view(self.versions@), i as int);
                }
                return true;
            }
            i += 1;
        }
        proof {
            lemma_assoc_contains(versions_view(self.versions@), *v);
        }
        false
    }

    /// Points the main link at a live working directory.
    pub fn link_package(&mut self, main_branch_path: String)
        ensures
            final(self)@.main_branch_path == main_branch_path@,
            final(self)@.versions == old(self)@.versions,
            final(self).versions == old(self).versions,
            old(self).wf() ==> final(self).wf(),
    {
        self.main_branch_path = main_branch_path;
    }

    /// Resolves a selector to a directory: `main` to the main link, an
    /// exact version to its archive (or nothing), `latest` to the archive
    /// of the greatest version present — nothing when none is.
    pub fn get_package_path(&self, package_name: &PackageName) -> (r: Option<String>)
        requires
            self.wf(),
        ensures
            match package_name.version {
                PackageVersion::Main => opt_str_view(r) == Some(self@.main_branch_path),
                PackageVersion::Version(v) => opt_str_view(r) == (if self@.versions.dom().contains(
                    v,
                ) {
                    Some(self@.versions[v].package_path)
                } else {
                    Option::<Seq<char>>::None
                }),
                PackageVersion::Latest => {
                    &&& (r is Some) <==> self.versions@.len() > 0
                    &&& r matches Some(p) ==> exists|m: Version|
                        {
                            &&& #[trigger] self@.versions.dom().contains(m)
                            &&& p@ == self@.versions[m].package_path
                            &&& forall|v: Version| self@.versions.dom().contains(v)
                                ==> !m.spec_lt(v)
                        }
                },
            },
    {
        match &package_name.version {
            PackageVersion::Main => Some(self.main_branch_path.clone()),
            PackageVersion::Version(v) => {
                let mut i: usize = 0;
                while i < self.versions.len()
                    invariant
                        i <= self.versions.len(),
                        self.wf(),
                        package_name.version == PackageVersion::Version(*v),
                        forall|j: int| 0 <= j < i ==> versions_view(self.versions@)[j].0 != *v,
                    decreases self.versions.len() - i,
                {
                    if self.versions[i].0 == *v {
                        proof {
                            lemma_assoc_get(versions_view(self.versions@), i as int);
                        }
                        return Some(self.versions[i].1.package_path.clone());
                    }
                    i += 1;
                }
                proof {
                    lemma_assoc_contains(versions_view(self.versions@), *v);
                }
                None
            },
            PackageVersion::Latest => {
                if self.versions.len() == 0 {
                    return None;
                }
                let mut best: usize = 0;
                let mut i: usize = 1;
                while i < self.versions.len()
                    invariant
                        best < i <= self.versions.len(),
                        self.wf(),
                        forall|j: int| 0 <= j < i ==> !versions_view(
                            self.versions@,
                        )[best as int].0.spec_lt(#[trigger] versions_view(self.versions@)[j].0),
                    decreases self.versions.len() - i,
                {
                    if self.versions[best].0.lt(&self.versions[i].0) {
                        best = i;
                    }
                    i += 1;
                }
                proof {
                    let vv = versions_view(self.versions@);
                    lemma_assoc_get(vv, best as int);
                    let m = vv[best as int].0;
                    assert forall|v: Version| self@.versions.dom().contains(v) implies !m.spec_lt(
                        v,
                    ) by {
                        lemma_assoc_contains(vv, v);
                        let j = choose|j: int| 0 <= j < vv.len() && vv[j].0 == v;
                    }
                }
                Some(self.versions[best].1.package_path.clone())
            },
        }
    }
}

} // verus!
