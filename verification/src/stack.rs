//! A stack: a saved run — one package's command with other packages'
//! environments appended.  Running it is I/O; what it resolves, and in
//! which order, is decided here.

use vstd::prelude::*;

use crate::address::PackageName;

verus! {

/// A saved run: the command, the package it lives in, and the packages
/// whose environments are appended, in order.  The timestamps are carried
/// as seconds since the epoch; nothing here reads them.
#[derive(Debug, Clone)]
pub struct Stack {
    pub name: String,
    pub command: String,
    pub package: PackageName,
    pub append: Option<Vec<PackageName>>,
    pub detach: bool,
    pub icon: Option<String>,
    pub modified_at: Option<i64>,
    pub created_at: Option<i64>,
}

/// A collection of stacks.
#[derive(Debug, Clone)]
pub struct Stacks {
    pub stacks: Vec<Stack>,
}

impl Stack {
    /// The addresses whose environments a stack composes, in order: its
    /// own package first, then the appended ones as given.
    pub fn addresses(self) -> (r: Vec<PackageName>)
        ensures
            r@ == seq![self.package] + (match self.append {
                Some(a) => a@,
                None => Seq::<PackageName>::empty(),
            }),
    {
        let mut out: Vec<PackageName> = Vec::new();
        let ghost me = self.package;
        out.push(self.package);
        proof {
            assert(out@ =~= seq![me]);
        }
        match self.append {
            Some(mut append) => {
                let ghost av = append@;
                out.append(&mut append);
                proof {
                    assert(out@ =~= seq![me] + av);
                }
                out
            },
            None => {
                proof {
                    assert(out@ =~= seq![me] + Seq::<PackageName>::empty());
                }
                out
            },
        }
    }
}

} // verus!
