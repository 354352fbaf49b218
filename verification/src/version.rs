//! Semantic versions as the registry and the tagging logic use them: a
//! `major.minor.patch` triple, ordered lexicographically.  Full semver text
//! (which may carry pre-release and build segments) is parsed by the
//! `semver` crate behind a trusted wrapper; the triple of a successful
//! parse is all the rest of the crate reads.  Two texts that share a triple
//! — `1.0.0-alpha` and `1.0.0` — therefore name one version here, and order
//! as equals; the versions the tool itself writes are always plain triples.

use vstd::prelude::*;

use crate::strutil::spec_u64_str;
use crate::strutil::u64_to_string;

verus! {

broadcast use vstd::string::group_string_axioms;

/// A semantic version triple.
#[derive(Debug, Clone, Copy, PartialEq, Eq, Structural, Hash)]
pub struct Version {
    pub major: u64,
    pub minor: u64,
    pub patch: u64,
}

impl Version {
    pub fn new(major: u64, minor: u64, patch: u64) -> (r: Version)
        ensures
            r == (Version { major, minor, patch }),
    {
        Version { major, minor, patch }
    }

    /// Strict precedence: by major, then minor, then patch.
    pub open spec fn spec_lt(self, other: Version) -> bool {
        self.major < other.major || (self.major == other.major && (self.minor < other.minor || (
        self.minor == other.minor && self.patch < other.patch)))
    }

    /// Whether `self` precedes `other`.
    pub fn lt(&self, other: &Version) -> (r: bool)
        ensures
            r == self.spec_lt(*other),
    {
        self.major < other.major || (self.major == other.major && (self.minor < other.minor || (
        self.minor == other.minor && self.patch < other.patch)))
    }

    /// The `major.minor.patch` text of this version.
    pub open spec fn spec_str(self) -> Seq<char> {
        spec_u64_str(self.major as nat) + seq!['.'] + spec_u64_str(self.minor as nat) + seq!['.']
            + spec_u64_str(self.patch as nat)
    }

    /// Writes the version as `major.minor.patch`.
    pub fn text(&self) -> (r: String)
        ensures
            r@ == self.spec_str(),
    {
        proof {
            reveal_strlit(".");
        }
        let mut out = u64_to_string(self.major);
        out.append(".");
        let minor = u64_to_string(self.minor);
        out.append(minor.as_str());
        out.append(".");
        let patch = u64_to_string(self.patch);
        out.append(patch.as_str());
        proof {
            assert(out@ =~= self.spec_str());
        }
        out
    }

    /// The version after a bump: exactly the highest requested component is
    /// incremented and every lower component is zeroed; with no component
    /// requested the version is unchanged.
    pub open spec fn spec_bumped(self, major: bool, minor: bool, patch: bool) -> Version {
        if major {
            Version { major: (self.major + 1) as u64, minor: 0, patch: 0 }
        } else if minor {
            Version { major: self.major, minor: (self.minor + 1) as u64, patch: 0 }
        } else if patch {
            Version { major: self.major, minor: self.minor, patch: (self.patch + 1) as u64 }
        } else {
            self
        }
    }

    /// Applies a bump to this version.
    pub fn bumped(&self, major: bool, minor: bool, patch: bool) -> (r: Version)
        requires
            major ==> self.major < u64::MAX,
            !major && minor ==> self.minor < u64::MAX,
            !major && !minor && patch ==> self.patch < u64::MAX,
        ensures
            r == self.spec_bumped(major, minor, patch),
    {
        if major {
            Version { major: self.major + 1, minor: 0, patch: 0 }
        } else if minor {
            Version { major: self.major, minor: self.minor + 1, patch: 0 }
        } else if patch {
            Version { major: self.major, minor: self.minor, patch: self.patch + 1 }
        } else {
            *self
        }
    }
}

/// A `.` between two texts splits uniquely when the left one holds no `.`.
proof fn lemma_dot_split_unique(x1: Seq<char>, y1: Seq<char>, x2: Seq<char>, y2: Seq<char>)
    requires
        x1 + seq!['.'] + y1 == x2 + seq!['.'] + y2,
        forall|j: int| 0 <= j < x1.len() ==> x1[j] != '.',
        forall|j: int| 0 <= j < x2.len() ==> x2[j] != '.',
    ensures
        x1 == x2,
        y1 == y2,
{
    let s = x1 + seq!['.'] + y1;
    assert(s[x1.len() as int] == '.');
    assert((x2 + seq!['.'] + y2)[x2.len() as int] == '.');
    if x1.len() < x2.len() {
        assert((x2 + seq!['.'] + y2)[x1.len() as int] == x2[x1.len() as int]);
    } else if x2.len() < x1.len() {
        assert(s[x2.len() as int] == x1[x2.len() as int]);
    }
    assert(x1.len() == x2.len());
    assert(x1 =~= x2) by {
        assert(forall|j: int| 0 <= j < x1.len() ==> s[j] == x1[j] && (x2 + seq!['.'] + y2)[j]
            == x2[j]);
    }
    assert(s.len() == x1.len() + 1 + y1.len());
    assert((x2 + seq!['.'] + y2).len() == x2.len() + 1 + y2.len());
    assert(y1.len() == y2.len());
    assert forall|j: int| 0 <= j < y1.len() implies y1[j] == y2[j] by {
        assert(y1[j] == s[x1.len() + 1 + j]);
        assert(y2[j] == (x2 + seq!['.'] + y2)[x2.len() + 1 + j]);
    }
    assert(y1 =~= y2);
}

/// Two versions with one `major.minor.patch` text are one version: the
/// rendering is injective, so two different published versions are always
/// archived under two different directory names.
pub proof fn lemma_version_str_injective(a: Version, b: Version)
    requires
        a.spec_str() == b.spec_str(),
    ensures
        a == b,
{
    crate::strutil::lemma_u64_str_digits(a.major as nat);
    crate::strutil::lemma_u64_str_digits(b.major as nat);
    crate::strutil::lemma_u64_str_digits(a.minor as nat);
    crate::strutil::lemma_u64_str_digits(b.minor as nat);
    let ta = spec_u64_str(a.minor as nat) + seq!['.'] + spec_u64_str(a.patch as nat);
    let tb = spec_u64_str(b.minor as nat) + seq!['.'] + spec_u64_str(b.patch as nat);
    assert(a.spec_str() =~= spec_u64_str(a.major as nat) + seq!['.'] + ta);
    assert(b.spec_str() =~= spec_u64_str(b.major as nat) + seq!['.'] + tb);
    lemma_dot_split_unique(spec_u64_str(a.major as nat), ta, spec_u64_str(b.major as nat), tb);
    crate::strutil::lemma_u64_str_injective(a.major as nat, b.major as nat);
    lemma_dot_split_unique(
        spec_u64_str(a.minor as nat),
        spec_u64_str(a.patch as nat),
        spec_u64_str(b.minor as nat),
        spec_u64_str(b.patch as nat),
    );
    crate::strutil::lemma_u64_str_injective(a.minor as nat, b.minor as nat);
    crate::strutil::lemma_u64_str_injective(a.patch as nat, b.patch as nat);
}

/// The name of the archive a published version is zipped into.
pub fn zip_file_name(v: &Version) -> (r: String)
    ensures
        r@ == v.spec_str() + "-package.zip"@,
{
    let mut out = v.text();
    out.append("-package.zip");
    out
}

/// A bump with no flag set defaults, by the caller's policy, to a minor
/// bump.  The bump starts from the latest tag — or from `0.0.0` where no
/// tag exists — so a latest tag of `0.1.0` goes to `0.2.0`, and a package
/// without tags goes to `0.1.0` whatever its manifest says.
pub proof fn lemma_bump_default_minor(latest: Option<Version>)
    ensures
        latest == Some(Version { major: 0, minor: 1, patch: 0 }) ==> (match latest {
            Some(t) => t,
            None => Version { major: 0, minor: 0, patch: 0 },
        }).spec_bumped(false, true, false) == (Version { major: 0, minor: 2, patch: 0 }),
        latest is None ==> (match latest {
            Some(t) => t,
            None => Version { major: 0, minor: 0, patch: 0 },
        }).spec_bumped(false, true, false) == (Version { major: 0, minor: 1, patch: 0 }),
{
}

/// What `semver::Version::parse` returns on the given characters: the
/// `(major, minor, patch)` triple of a successful parse, or nothing.
pub uninterp spec fn semver_parse(s: Seq<char>) -> Option<(u64, u64, u64)>;

/// Relies on `semver::Version::parse`: the result is a function of the
/// characters alone; a parse succeeds only when the text begins with an
/// ASCII digit (the major version number comes first); and a plain
/// `MAJOR.MINOR.PATCH` text — three decimal numbers without leading zeros —
/// parses to exactly that triple.
#[verifier::external_body]
pub(crate) fn parse_semver(s: &str) -> (r: Option<Version>)
    ensures
        r matches Some(v) ==> semver_parse(s@) == Some((v.major, v.minor, v.patch)),
        r is Some <==> semver_parse(s@) is Some,
        r is Some ==> s@.len() > 0 && '0' <= s@[0] <= '9',
        forall|v: Version| s@ == v.spec_str() ==> r == Some(v),
{
    match semver::Version::parse(s) {
        Ok(v) => Some(Version { major: v.major, minor: v.minor, patch: v.patch }),
        Err(_) => None,
    }
}

/// The version triples of the tags that parse as semver, in tag order.
pub open spec fn spec_semver_tags(tags: Seq<Seq<char>>) -> Seq<Version>
    decreases tags.len(),
{
    if tags.len() == 0 {
        Seq::empty()
    } else {
        spec_semver_tags(tags.drop_last()) + match semver_parse(tags.last()) {
            Some(t) => seq![Version { major: t.0, minor: t.1, patch: t.2 }],
            None => Seq::empty(),
        }
    }
}

/// Keeps the tags that parse as semver, as version triples, in tag order.
pub fn get_semver_tags(tags: &Vec<String>) -> (r: Vec<Version>)
    ensures
        r@ == spec_semver_tags(crate::strutil::strs_view(tags@)),
{
    let ghost views = crate::strutil::strs_view(tags@);
    let mut out: Vec<Version> = Vec::new();
    let mut i: usize = 0;
    while i < tags.len()
        invariant
            i <= tags.len(),
            views == crate::strutil::strs_view(tags@),
            views.len() == tags@.len(),
            out@ == spec_semver_tags(views.subrange(0, i as int)),
        decreases tags.len() - i,
    {
        proof {
            assert(views.subrange(0, i + 1).drop_last() =~= views.subrange(0, i as int));
            assert(views.subrange(0, i + 1).last() == views[i as int]);
        }
        match parse_semver(tags[i].as_str()) {
            Some(v) => {
                out.push(v);
            },
            None => {},
        }
        proof {
            assert(out@ =~= spec_semver_tags(views.subrange(0, i + 1)));
        }
        i += 1;
    }
    proof {
        assert(views.subrange(0, tags@.len() as int) =~= views);
    }
    out
}

/// The greatest version of the list, or nothing when it is empty.  Of two
/// equal maxima the earlier one is kept, which no caller can tell apart.
pub open spec fn spec_latest(vs: Seq<Version>) -> Option<Version>
    decreases vs.len(),
{
    if vs.len() == 0 {
        None
    } else {
        match spec_latest(vs.drop_last()) {
            None => Some(vs.last()),
            Some(m) => if m.spec_lt(vs.last()) {
                Some(vs.last())
            } else {
                Some(m)
            },
        }
    }
}

/// The greatest version is one of the list and no element exceeds it.
pub proof fn lemma_latest_is_max(vs: Seq<Version>)
    ensures
        (spec_latest(vs) is Some) <==> vs.len() > 0,
        spec_latest(vs) matches Some(m) ==> vs.contains(m) && forall|i: int|
            0 <= i < vs.len() ==> !m.spec_lt(#[trigger] vs[i]),
    decreases vs.len(),
{
    if vs.len() > 0 {
        lemma_latest_is_max(vs.drop_last());
        let m = spec_latest(vs)->Some_0;
        if vs.len() == 1 {
            assert(vs.contains(m)) by {
                assert(vs[0] == vs.last());
            }
        } else {
            let prev = spec_latest(vs.drop_last())->Some_0;
            if vs.drop_last().contains(prev) {
                let j = choose|j: int| 0 <= j < vs.drop_last().len() && vs.drop_last()[j] == prev;
                assert(vs[j] == prev);
            }
            assert(vs.contains(m)) by {
                if m == vs.last() {
                    assert(vs[vs.len() - 1] == m);
                }
            }
            assert forall|i: int| 0 <= i < vs.len() implies !m.spec_lt(#[trigger] vs[i]) by {
                if i < vs.len() - 1 {
                    assert(vs.drop_last()[i] == vs[i]);
                }
            }
        }
    }
}

/// The greatest semver tag of the list, or nothing when no tag parses.
pub fn get_latest_semver_tag(tags: &Vec<String>) -> (r: Option<Version>)
    ensures
        r == spec_latest(spec_semver_tags(crate::strutil::strs_view(tags@))),
{
    let parsed = get_semver_tags(tags);
    let ghost all = parsed@;
    let mut best: Option<Version> = None;
    let mut i: usize = 0;
    while i < parsed.len()
        invariant
            i <= parsed.len(),
            all == parsed@,
            best == spec_latest(all.subrange(0, i as int)),
        decreases parsed.len() - i,
    {
        proof {
            assert(all.subrange(0, i + 1).drop_last() =~= all.subrange(0, i as int));
            assert(all.subrange(0, i + 1).last() == all[i as int]);
        }
        let v = parsed[i];
        best = match best {
            None => Some(v),
            Some(m) => if m.lt(&v) {
                Some(v)
            } else {
                Some(m)
            },
        };
        i += 1;
    }
    proof {
        assert(all.subrange(0, all.len() as int) =~= all);
    }
    best
}

} // verus!
