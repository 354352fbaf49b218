//! Named commands of a manifest: a global table plus optional per-platform
//! tables whose same-named entries override the global ones.

use vstd::prelude::*;

use crate::assoc::assoc_map;
use crate::assoc::keys_unique;
use crate::assoc::lemma_assoc_contains;
use crate::assoc::lemma_assoc_get;
use crate::platform::Platform;
use crate::strutil::str_eq;
use crate::strutil::strs_view;

verus! {

/// One runnable command: its argument list (program first) and an optional
/// working directory.
#[derive(Debug, Clone, PartialEq, Eq)]
pub struct Command {
    pub values: Vec<String>,
    pub cwd: Option<String>,
}

/// The characters a command holds: its argument list and working directory.
pub open spec fn cmd_view(c: Command) -> (Seq<Seq<char>>, Option<Seq<char>>) {
    (strs_view(c.values@), crate::strutil::opt_str_view(c.cwd))
}

/// One command table as character sequences, in declared order.
pub open spec fn cmds_view(s: Seq<(String, Command)>) -> Seq<
    (Seq<char>, (Seq<Seq<char>>, Option<Seq<char>>)),
> {
    s.map_values(|p: (String, Command)| (p.0@, cmd_view(p.1)))
}

impl Command {
    pub fn new(values: Vec<String>) -> (r: Command)
        ensures
            r.values == values,
            r.cwd is None,
    {
        Command { values, cwd: None }
    }

    /// An identical copy.
    pub fn duplicate(&self) -> (r: Command)
        ensures
            r.values@ == self.values@,
            r.cwd == self.cwd,
            cmd_view(r) == cmd_view(*self),
    {
        let mut values: Vec<String> = Vec::new();
        let mut i: usize = 0;
        proof {
            assert(values@ =~= self.values@.subrange(0, 0));
        }
        while i < self.values.len()
            invariant
                i <= self.values.len(),
                values@ == self.values@.subrange(0, i as int),
            decreases self.values.len() - i,
        {
            values.push(self.values[i].clone());
            proof {
                assert(values@ =~= self.values@.subrange(0, i + 1));
            }
            i += 1;
        }
        proof {
            assert(values@ =~= self.values@);
        }
        let cwd = match &self.cwd {
            Some(s) => Some(s.clone()),
            None => None,
        };
        Command { values, cwd }
    }
}

/// The command tables of a manifest.
#[derive(Debug, Clone, PartialEq, Eq)]
pub struct Commands {
    pub global: Vec<(String, Command)>,
    pub macos: Option<Vec<(String, Command)>>,
    pub linux: Option<Vec<(String, Command)>>,
    pub windows: Option<Vec<(String, Command)>>,
}

/// Looks a name up in one table.
fn table_get<'a>(table: &'a Vec<(String, Command)>, name: &str) -> (r: Option<&'a Command>)
    requires
        keys_unique(cmds_view(table@)),
    ensures
        match r {
            Some(c) => assoc_map(cmds_view(table@)).dom().contains(name@) && assoc_map(
                cmds_view(table@),
            )[name@] == cmd_view(*c),
            None => !assoc_map(cmds_view(table@)).dom().contains(name@),
        },
{
    let mut i: usize = 0;
    while i < table.len()
        invariant
            i <= table.len(),
            keys_unique(cmds_view(table@)),
            forall|j: int| 0 <= j < i ==> cmds_view(table@)[j].0 != name@,
        decreases table.len() - i,
    {
        if str_eq(table[i].0.as_str(), name) {
            proof {
                lemma_assoc_get(cmds_view(table@), i as int);
            }
            return Some(&table[i].1);
        }
        i += 1;
    }
    proof {
        lemma_assoc_contains(cmds_view(table@), name@);
    }
    None
}

impl Commands {
    /// Every table's names are unique, as tables read from a keyed document
    /// always are.
    pub open spec fn wf(&self) -> bool {
        &&& keys_unique(cmds_view(self.global@))
        &&& match self.macos {
            Some(t) => keys_unique(cmds_view(t@)),
            None => true,
        }
        &&& match self.linux {
            Some(t) => keys_unique(cmds_view(t@)),
            None => true,
        }
        &&& match self.windows {
            Some(t) => keys_unique(cmds_view(t@)),
            None => true,
        }
    }

    /// The platform's own table, where one is declared.
    pub open spec fn spec_platform_table(&self, platform: Platform) -> Option<
        Seq<(String, Command)>,
    > {
        match (match platform {
            Platform::Macos => &self.macos,
            Platform::Linux => &self.linux,
            Platform::Windows => &self.windows,
        }) {
            Some(t) => Some(t@),
            None => None,
        }
    }

    /// What looking `name` up on `platform` yields: the platform table's
    /// entry when it has one, else the global table's, else nothing.
    pub open spec fn spec_get_command(&self, name: Seq<char>, platform: Platform) -> Option<
        (Seq<Seq<char>>, Option<Seq<char>>),
    > {
        let pm = match self.spec_platform_table(platform) {
            Some(t) => assoc_map(cmds_view(t)),
            None => Map::empty(),
        };
        let gm = assoc_map(cmds_view(self.global@));
        if pm.dom().contains(name) {
            Some(pm[name])
        } else if gm.dom().contains(name) {
            Some(gm[name])
        } else {
            None
        }
    }

    /// Looks a command up: the platform's entry overrides the global one;
    /// a name absent from the platform table falls back to the global table.
    pub fn get_command(&self, command: &str, platform: Platform) -> (r: Option<Command>)
        requires
            self.wf(),
        ensures
            match r {
                Some(c) => self.spec_get_command(command@, platform) == Some(cmd_view(c)),
                None => self.spec_get_command(command@, platform) is None,
            },
    {
        let table: &Option<Vec<(String, Command)>> = match platform {
            Platform::Macos => &self.macos,
            Platform::Linux => &self.linux,
            Platform::Windows => &self.windows,
        };
        match table {
            Some(t) => {
                match table_get(t, command) {
                    Some(c) => {
                        return Some(c.duplicate());
                    },
                    None => {},
                }
            },
            None => {},
        }
        match table_get(&self.global, command) {
            Some(c) => Some(c.duplicate()),
            None => None,
        }
    }
}

} // verus!
