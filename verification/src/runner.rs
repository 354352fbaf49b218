//! What a command launch needs, computed ahead of the actual spawn: the
//! program, its arguments, the child's environment, the working directory,
//! and — for detached launches — the joined command line and the script
//! text that exports the environment before running it.

use vstd::prelude::*;

use crate::envmap::EnvMap;
use crate::strutil::join_str;
use crate::strutil::replace_str;
use crate::strutil::spec_count_char;
use crate::strutil::spec_join;
use crate::strutil::spec_replace;
use crate::strutil::spec_trim;
use crate::strutil::strs_view;
use crate::strutil::count_char;
use crate::strutil::trim_str;

verus! {

broadcast use vstd::string::group_string_axioms;

/// A launch, fully decided: spawning it is all that is left.
#[derive(Debug)]
pub struct RunPlan {
    pub program: String,
    pub args: Vec<String>,
    pub env: EnvMap,
    pub cwd: Option<String>,
    pub detach: bool,
}

/// One additional argument as the detached command line carries it:
/// trimmed, `%` doubled against unintended expansion, and quoted when it
/// holds a space.
pub open spec fn spec_quoted_extra(c: Seq<char>) -> Seq<char> {
    let t = spec_trim(c);
    let e = spec_replace(t, "%"@, "%%"@);
    if spec_count_char(e, ' ') > 0 {
        seq!['"'] + e + seq!['"']
    } else {
        e
    }
}

/// The full detached command line: the command's own values joined by
/// spaces, then each additional argument, quoted defensively.
pub open spec fn spec_command_line(values: Seq<Seq<char>>, extras: Seq<Seq<char>>) -> Seq<char>
    decreases extras.len(),
{
    if extras.len() == 0 {
        spec_join(values, seq![' '])
    } else {
        spec_command_line(values, extras.drop_last()) + seq![' '] + spec_quoted_extra(
            extras.last(),
        )
    }
}

/// Builds the detached command line.
pub fn command_line(values: &Vec<String>, extras: &Vec<String>) -> (r: String)
    ensures
        r@ == spec_command_line(strs_view(values@), strs_view(extras@)),
{
    proof {
        reveal_strlit(" ");
        reveal_strlit("%");
        reveal_strlit("%%");
        reveal_strlit("\"");
        assert(" "@ =~= seq![' ']);
        assert("\""@ =~= seq!['"']);
    }
    let ghost evs = strs_view(extras@);
    let mut out = join_str(values, " ");
    let mut i: usize = 0;
    proof {
        assert(evs.subrange(0, 0) =~= Seq::<Seq<char>>::empty());
    }
    while i < extras.len()
        invariant
            i <= extras.len(),
            evs == strs_view(extras@),
            evs.len() == extras@.len(),
            out@ == spec_command_line(strs_view(values@), evs.subrange(0, i as int)),
        decreases extras.len() - i,
    {
        proof {
            reveal_strlit(" ");
            reveal_strlit("%");
            reveal_strlit("%%");
            reveal_strlit("\"");
            assert(evs.subrange(0, i + 1).drop_last() =~= evs.subrange(0, i as int));
            assert(evs.subrange(0, i + 1).last() == evs[i as int]);
        }
        let trimmed = trim_str(extras[i].as_str());
        let escaped = replace_str(trimmed.as_str(), "%", "%%");
        let quoted = if count_char(escaped.as_str(), ' ') > 0 {
            let mut q = "\"".to_owned();
            q.append(escaped.as_str());
            q.append("\"");
            proof {
                assert(q@ =~= seq!['"'] + escaped@ + seq!['"']);
            }
            q
        } else {
            escaped
        };
        out.append(" ");
        out.append(quoted.as_str());
        i += 1;
    }
    proof {
        assert(evs.subrange(0, evs.len() as int) =~= evs);
    }
    out
}

/// The environment-setting lines of the launch script, one `set` per
/// variable in stored order, values' quotes doubled.
pub open spec fn spec_script_env_lines(entries: Seq<(Seq<char>, Seq<char>)>) -> Seq<char>
    decreases entries.len(),
{
    if entries.len() == 0 {
        Seq::empty()
    } else {
        spec_script_env_lines(entries.drop_last()) + "set \""@ + entries.last().0 + "="@
            + spec_replace(entries.last().1, "\""@, "\"\""@) + "\"\n"@
    }
}

/// The whole launch script: the environment lines, the command line, and a
/// closing `exit`.
pub open spec fn spec_script(entries: Seq<(Seq<char>, Seq<char>)>, command: Seq<char>) -> Seq<
    char,
> {
    spec_script_env_lines(entries) + command + "\n"@ + "exit\n"@
}

/// Builds the launch script for a detached run.
pub fn launch_script(env: &EnvMap, command: &str) -> (r: String)
    ensures
        r@ == spec_script(env.entries(), command@),
{
    let pairs = env.to_pairs();
    let ghost entries = env.entries();
    let mut out = String::new();
    let mut i: usize = 0;
    proof {
        assert(entries.subrange(0, 0) =~= Seq::<(Seq<char>, Seq<char>)>::empty());
        assert(out@ =~= spec_script_env_lines(entries.subrange(0, 0)));
    }
    while i < pairs.len()
        invariant
            i <= pairs.len(),
            crate::envmap::pairs_view(pairs@) == entries,
            entries.len() == pairs@.len(),
            out@ == spec_script_env_lines(entries.subrange(0, i as int)),
        decreases pairs.len() - i,
    {
        proof {
            reveal_strlit("\"");
            reveal_strlit("\"\"");
            assert(entries.subrange(0, i + 1).drop_last() =~= entries.subrange(0, i as int));
            assert(entries.subrange(0, i + 1).last() == entries[i as int]);
        }
        let escaped = replace_str(pairs[i].1.as_str(), "\"", "\"\"");
        out.append("set \"");
        out.append(pairs[i].0.as_str());
        out.append("=");
        out.append(escaped.as_str());
        out.append("\"\n");
        i += 1;
    }
    proof {
        assert(entries.subrange(0, entries.len() as int) =~= entries);
    }
    out.append(command);
    out.append("\n");
    out.append("exit\n");
    out
}

} // verus!
