//! The operating-system family a run resolves against.  Environment rules,
//! command tables and the launch strategy all branch on it in one place.

use vstd::prelude::*;

verus! {

broadcast use vstd::string::group_string_axioms;

/// The platforms the manifest format distinguishes.
#[derive(Debug, Clone, Copy, PartialEq, Eq, Structural, Hash)]
pub enum Platform {
    Macos,
    Linux,
    Windows,
}

impl Platform {
    /// The list-value delimiter of this platform.
    pub open spec fn spec_delimiter(self) -> char {
        if self is Windows {
            ';'
        } else {
            ':'
        }
    }

    /// The delimiter as a one-character string.
    pub fn delimiter(&self) -> (r: &'static str)
        ensures
            r@ == seq![self.spec_delimiter()],
            r@.len() == 1,
    {
        match self {
            Platform::Windows => {
                proof {
                    reveal_strlit(";");
                    assert(";"@ =~= seq![';']);
                }
                ";"
            },
            _ => {
                proof {
                    reveal_strlit(":");
                    assert(":"@ =~= seq![':']);
                }
                ":"
            },
        }
    }
}

} // verus!
