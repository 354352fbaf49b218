//! Paths as plain strings: joining with `/`, and the one on-disk question
//! the library asks (whether a path exists), behind a trusted wrapper.

use vstd::prelude::*;

use crate::strutil::concat_str;

verus! {

broadcast use vstd::string::group_string_axioms;

/// `base/leaf`; a leaf alone when the base is empty.
pub open spec fn spec_path_join(base: Seq<char>, leaf: Seq<char>) -> Seq<char> {
    if base.len() == 0 {
        leaf
    } else {
        base + seq!['/'] + leaf
    }
}

/// Joins two path segments with `/`.
pub fn path_join(base: &str, leaf: &str) -> (r: String)
    ensures
        r@ == spec_path_join(base@, leaf@),
{
    proof {
        reveal_strlit("/");
        assert("/"@ =~= seq!['/']);
    }
    if base.unicode_len() == 0 {
        leaf.to_owned()
    } else {
        let mut out = concat_str(base, "/");
        out.append(leaf);
        out
    }
}

/// Joining one base with two different leaves gives two different paths.
pub proof fn lemma_path_join_cancels(base: Seq<char>, l1: Seq<char>, l2: Seq<char>)
    requires
        spec_path_join(base, l1) == spec_path_join(base, l2),
    ensures
        l1 == l2,
{
    if base.len() > 0 {
        let s1 = base + seq!['/'] + l1;
        let s2 = base + seq!['/'] + l2;
        assert(s1.len() == base.len() + 1 + l1.len());
        assert(s2.len() == base.len() + 1 + l2.len());
        assert forall|j: int| 0 <= j < l1.len() implies l1[j] == l2[j] by {
            assert(l1[j] == s1[base.len() + 1 + j]);
            assert(l2[j] == s2[base.len() + 1 + j]);
        }
        assert(l1 =~= l2);
    }
}

/// Relies on `std::path::Path::exists`: answers whether the path points at
/// an existing entity on disk, which only the file system decides.
#[verifier::external_body]
pub fn path_exists(path: &str) -> bool {
    std::path::Path::new(path).exists()
}

} // verus!
