//! Package addresses: a name plus a version selector.  `"name"` selects the
//! main (live) checkout, `"name/latest"` the greatest published version,
//! `"name/main"` the main checkout, and `"name/<semver>"` an exact version;
//! a second segment that is none of those degrades to `latest`.

use vstd::prelude::*;

use crate::strutil::count_char;
use crate::strutil::find_char;
use crate::strutil::lemma_count_char_concat;
use crate::strutil::lemma_count_char_two;
use crate::strutil::lemma_count_char_zero;
use crate::strutil::lemma_remove_char_concat;
use crate::strutil::lemma_remove_char_keeps_missing;
use crate::strutil::remove_char;
use crate::strutil::spec_count_char;
use crate::strutil::spec_remove_char;
use crate::strutil::str_eq;
use crate::strutil::strs_view;
use crate::version::semver_parse;
use crate::version::parse_semver;
use crate::version::Version;

verus! {

broadcast use vstd::string::group_string_axioms;

/// The version selector of an address.
#[derive(Debug, Clone, Copy, PartialEq, Eq, Structural, Hash)]
pub enum PackageVersion {
    Version(Version),
    Latest,
    Main,
}

impl PackageVersion {
    /// The selector's text: the version itself, `latest`, or `main`.
    pub open spec fn spec_text(self) -> Seq<char> {
        match self {
            PackageVersion::Version(v) => v.spec_str(),
            PackageVersion::Latest => "latest"@,
            PackageVersion::Main => "main"@,
        }
    }

    /// Writes the selector.
    pub fn text(&self) -> (r: String)
        ensures
            r@ == self.spec_text(),
    {
        match self {
            PackageVersion::Version(v) => v.text(),
            PackageVersion::Latest => "latest".to_owned(),
            PackageVersion::Main => "main".to_owned(),
        }
    }
}

/// A parsed package address.  `active` is carried by the format but read by
/// nothing; parsing always sets it.
#[derive(Debug, Clone, PartialEq, Eq)]
pub struct PackageName {
    pub name: String,
    pub version: PackageVersion,
    pub active: bool,
}

/// The selector a second address segment denotes.
pub open spec fn spec_parse_segment(seg: Seq<char>) -> PackageVersion {
    if seg == "latest"@ {
        PackageVersion::Latest
    } else if seg == "main"@ {
        PackageVersion::Main
    } else {
        match semver_parse(seg) {
            Some(t) => PackageVersion::Version(Version { major: t.0, minor: t.1, patch: t.2 }),
            None => PackageVersion::Latest,
        }
    }
}

/// What parsing an address yields: the name and the selector.  Commas are
/// dropped first; one `/` splits name from selector; none selects `main`;
/// more than one makes the whole text the name, selecting `latest`.
pub open spec fn spec_parse_address(s: Seq<char>) -> (Seq<char>, PackageVersion) {
    let t = spec_remove_char(s, ',');
    if spec_count_char(t, '/') == 0 {
        (t, PackageVersion::Main)
    } else if spec_count_char(t, '/') == 1 {
        let i = choose|i: int| 0 <= i < t.len() && t[i] == '/';
        (t.subrange(0, i), spec_parse_segment(t.skip(i + 1)))
    } else {
        (t, PackageVersion::Latest)
    }
}

impl PackageName {
    /// Parses an address.
    pub fn from_str(package_name: &str) -> (r: PackageName)
        ensures
            (r.name@, r.version) == spec_parse_address(package_name@),
            r.active,
    {
        let cleaned = remove_char(package_name, ',');
        let len = cleaned.as_str().unicode_len();
        let slashes = count_char(cleaned.as_str(), '/');
        let ghost t = cleaned@;
        if slashes == 0 {
            PackageName { name: cleaned, version: PackageVersion::Main, active: true }
        } else if slashes == 1 {
            match find_char(cleaned.as_str(), '/') {
                Some(i) => {
                    proof {
                        let ci = choose|ci: int| 0 <= ci < t.len() && t[ci] == '/';
                        if ci != i as int {
                            if ci < i as int {
                                lemma_count_char_two(t, '/', ci, i as int);
                            } else {
                                lemma_count_char_two(t, '/', i as int, ci);
                            }
                        }
                        assert(t.subrange(i + 1, t.len() as int) =~= t.skip(i + 1));
                    }
                    let name = cleaned.as_str().substring_char(0, i).to_owned();
                    let seg = cleaned.as_str().substring_char(i + 1, len);
                    let version = if str_eq(seg, "latest") {
                        PackageVersion::Latest
                    } else if str_eq(seg, "main") {
                        PackageVersion::Main
                    } else {
                        match parse_semver(seg) {
                            Some(v) => PackageVersion::Version(v),
                            None => PackageVersion::Latest,
                        }
                    };
                    PackageName { name, version, active: true }
                },
                None => {
                    proof {
                        lemma_count_char_zero(t, '/');
                    }
                    PackageName { name: cleaned, version: PackageVersion::Latest, active: true }
                },
            }
        } else {
            PackageName { name: cleaned, version: PackageVersion::Latest, active: true }
        }
    }

    /// Parses a list of addresses, in order.
    pub fn from_vec_str(package_name: &Vec<String>) -> (r: Vec<PackageName>)
        ensures
            r@.len() == package_name@.len(),
            forall|i: int| 0 <= i < r@.len() ==> (#[trigger] r@[i].name@, r@[i].version)
                == spec_parse_address(strs_view(package_name@)[i]) && r@[i].active,
    {
        let mut out: Vec<PackageName> = Vec::new();
        let mut i: usize = 0;
        while i < package_name.len()
            invariant
                i <= package_name.len(),
                out@.len() == i,
                forall|j: int| 0 <= j < i ==> (#[trigger] out@[j].name@, out@[j].version)
                    == spec_parse_address(strs_view(package_name@)[j]) && out@[j].active,
            decreases package_name.len() - i,
        {
            out.push(PackageName::from_str(package_name[i].as_str()));
            i += 1;
        }
        out
    }
}

/// A one-slash address parses to the cleaned name and its segment's selector.
proof fn lemma_parse_one_slash(name: Seq<char>, seg: Seq<char>)
    requires
        forall|j: int| 0 <= j < name.len() ==> name[j] != '/',
        forall|j: int| 0 <= j < seg.len() ==> seg[j] != '/',
        forall|j: int| 0 <= j < seg.len() ==> seg[j] != ',',
    ensures
        spec_parse_address(name + seq!['/'] + seg) == (
            spec_remove_char(name, ','),
            spec_parse_segment(seg),
        ),
{
    let whole = name + seq!['/'] + seg;
    let cn = spec_remove_char(name, ',');
    lemma_remove_char_concat(name + seq!['/'], seg, ',');
    lemma_remove_char_concat(name, seq!['/'], ',');
    crate::strutil::lemma_remove_char_id(seq!['/'], ',');
    crate::strutil::lemma_remove_char_id(seg, ',');
    let t = spec_remove_char(whole, ',');
    assert(t == cn + seq!['/'] + seg);
    lemma_remove_char_keeps_missing(name, ',', '/');
    lemma_count_char_concat(cn + seq!['/'], seg, '/');
    lemma_count_char_concat(cn, seq!['/'], '/');
    lemma_count_char_zero(cn, '/');
    lemma_count_char_zero(seg, '/');
    assert(spec_count_char(seq!['/'], '/') == 1) by {
        let s = seq!['/'];
        assert(s.len() == 1);
        assert(s.last() == '/');
        assert(s.drop_last().len() == 0);
        assert(spec_count_char(s.drop_last(), '/') == 0);
    }
    assert(spec_count_char(t, '/') == 1);
    assert(t[cn.len() as int] == '/');
    let i = choose|i: int| 0 <= i < t.len() && t[i] == '/';
    if i != cn.len() as int {
        if i < cn.len() as int {
            lemma_count_char_two(t, '/', i, cn.len() as int);
        } else {
            lemma_count_char_two(t, '/', cn.len() as int, i);
        }
    }
    assert(t.subrange(0, cn.len() as int) =~= cn);
    assert(t.skip(cn.len() as int + 1) =~= seg);
}

/// A bare name and the same name with `/main` select the same package: both
/// parse to the name with the `main` selector.
pub proof fn lemma_main_address_forms(name: Seq<char>)
    requires
        forall|j: int| 0 <= j < name.len() ==> name[j] != '/',
    ensures
        spec_parse_address(name) == (spec_remove_char(name, ','), PackageVersion::Main),
        spec_parse_address(name + "/main"@) == spec_parse_address(name),
{
    reveal_strlit("/main");
    reveal_strlit("main");
    reveal_strlit("latest");
    let cn = spec_remove_char(name, ',');
    lemma_remove_char_keeps_missing(name, ',', '/');
    lemma_count_char_zero(cn, '/');
    assert(spec_parse_address(name) == (cn, PackageVersion::Main));
    assert("/main"@ =~= seq!['/'] + "main"@);
    assert(name + "/main"@ =~= name + seq!['/'] + "main"@);
    assert(forall|j: int| 0 <= j < "main"@.len() ==> "main"@[j] != '/');
    assert(forall|j: int| 0 <= j < "main"@.len() ==> "main"@[j] != ',');
    lemma_parse_one_slash(name, "main"@);
    assert("main"@ != "latest"@) by {
        assert("main"@.len() != "latest"@.len());
    }
    assert(spec_parse_segment("main"@) == PackageVersion::Main);
}

/// An address whose second segment is a semver string selects exactly that
/// version.
pub proof fn lemma_semver_address(name: Seq<char>, v: Seq<char>, t: (u64, u64, u64))
    requires
        forall|j: int| 0 <= j < name.len() ==> name[j] != '/',
        forall|j: int| 0 <= j < v.len() ==> v[j] != '/',
        forall|j: int| 0 <= j < v.len() ==> v[j] != ',',
        semver_parse(v) == Some(t),
        v != "latest"@,
        v != "main"@,
    ensures
        spec_parse_address(name + "/"@ + v) == (
            spec_remove_char(name, ','),
            PackageVersion::Version(Version { major: t.0, minor: t.1, patch: t.2 }),
        ),
{
    reveal_strlit("/");
    assert(name + "/"@ + v =~= name + seq!['/'] + v);
    lemma_parse_one_slash(name, v);
}

/// An address whose second segment is neither `latest`, `main`, nor a
/// semver string degrades to the `latest` selector.
pub proof fn lemma_fallback_address(name: Seq<char>, seg: Seq<char>)
    requires
        forall|j: int| 0 <= j < name.len() ==> name[j] != '/',
        forall|j: int| 0 <= j < seg.len() ==> seg[j] != '/',
        forall|j: int| 0 <= j < seg.len() ==> seg[j] != ',',
        semver_parse(seg) is None,
        seg != "latest"@,
        seg != "main"@,
    ensures
        spec_parse_address(name + "/"@ + seg) == (
            spec_remove_char(name, ','),
            PackageVersion::Latest,
        ),
{
    reveal_strlit("/");
    assert(name + "/"@ + seg =~= name + seq!['/'] + seg);
    lemma_parse_one_slash(name, seg);
}

} // verus!

