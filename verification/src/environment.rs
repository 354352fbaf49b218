//! Environment-variable rules and their resolution.
//!
//! A manifest declares, per platform plus one unconditional bucket, an
//! ordered list of `(variable, values)` rules.  Each value carries its
//! action as a literal prefix — `append:`, `prepend:` or `set:`, appending
//! by default — and may embed `{root}`, which resolution substitutes with
//! the package's source directory.  Resolution folds the rules, in declared
//! order, over an accumulating mapping; a variable not yet set by the
//! accumulator falls back to the host environment, then to the empty
//! string.

use vstd::prelude::*;

use crate::envmap::EnvMap;
use crate::platform::Platform;
use crate::strutil::spec_replace;
use crate::strutil::spec_starts_with;
use crate::strutil::starts_with_str;
use crate::strutil::replace_str;
use crate::strutil::strs_view;

verus! {

broadcast use vstd::string::group_string_axioms;

/// What a rule value does with the variable's existing value.
#[derive(Debug, Clone, Copy, PartialEq, Eq, Structural, Hash)]
pub enum Action {
    Append,
    Prepend,
    Assign,
}

/// The ordered values a manifest declares for one variable.
#[derive(Debug, Clone, PartialEq, Eq)]
pub struct EnvVar {
    pub values: Vec<String>,
}

/// The four rule buckets of a manifest: one per platform, one global.
#[derive(Debug, Clone, PartialEq, Eq)]
pub struct Environments {
    pub macos: Option<Vec<(String, EnvVar)>>,
    pub linux: Option<Vec<(String, EnvVar)>>,
    pub windows: Option<Vec<(String, EnvVar)>>,
    pub global: Vec<(String, EnvVar)>,
}

/// The action a (substituted) rule value encodes.
pub open spec fn spec_action_of(v: Seq<char>) -> Action {
    if spec_starts_with(v, "append:"@) {
        Action::Append
    } else if spec_starts_with(v, "prepend:"@) {
        Action::Prepend
    } else if spec_starts_with(v, "set:"@) {
        Action::Assign
    } else {
        Action::Append
    }
}

/// The rule value with its action prefix stripped.
pub open spec fn spec_payload_of(v: Seq<char>) -> Seq<char> {
    if spec_starts_with(v, "append:"@) {
        v.skip("append:"@.len() as int)
    } else if spec_starts_with(v, "prepend:"@) {
        v.skip("prepend:"@.len() as int)
    } else if spec_starts_with(v, "set:"@) {
        v.skip("set:"@.len() as int)
    } else {
        v
    }
}

/// Splits a rule value into its action and its payload.
pub fn parse_action(value: &str) -> (r: (Action, String))
    ensures
        r.0 == spec_action_of(value@),
        r.1@ == spec_payload_of(value@),
{
    let len = value.unicode_len();
    if starts_with_str(value, "append:") {
        let n = "append:".unicode_len();
        let payload = value.substring_char(n, len).to_owned();
        proof {
            assert(value@.subrange("append:"@.len() as int, value@.len() as int) =~= value@.skip(
                "append:"@.len() as int,
            ));
        }
        (Action::Append, payload)
    } else if starts_with_str(value, "prepend:") {
        let n = "prepend:".unicode_len();
        let payload = value.substring_char(n, len).to_owned();
        proof {
            assert(value@.subrange("prepend:"@.len() as int, value@.len() as int) =~= value@.skip(
                "prepend:"@.len() as int,
            ));
        }
        (Action::Prepend, payload)
    } else if starts_with_str(value, "set:") {
        let n = "set:".unicode_len();
        let payload = value.substring_char(n, len).to_owned();
        proof {
            assert(value@.subrange("set:"@.len() as int, value@.len() as int) =~= value@.skip(
                "set:"@.len() as int,
            ));
        }
        (Action::Assign, payload)
    } else {
        (Action::Append, value.to_owned())
    }
}

/// The existing value an action composes with: the accumulator's if the
/// variable was set this invocation, else the host environment's, else
/// the empty string.
pub open spec fn spec_existing(
    acc: Map<Seq<char>, Seq<char>>,
    host: Map<Seq<char>, Seq<char>>,
    k: Seq<char>,
) -> Seq<char> {
    if acc.dom().contains(k) {
        acc[k]
    } else if host.dom().contains(k) {
        host[k]
    } else {
        Seq::empty()
    }
}

/// One rule value applied to the accumulator: `{root}` is substituted,
/// the action prefix is stripped, and the variable is set accordingly.
pub open spec fn spec_apply_value(
    acc: Map<Seq<char>, Seq<char>>,
    host: Map<Seq<char>, Seq<char>>,
    k: Seq<char>,
    raw: Seq<char>,
    root: Seq<char>,
    delim: char,
) -> Map<Seq<char>, Seq<char>> {
    let v = spec_replace(raw, "{root}"@, root);
    let existing = spec_existing(acc, host, k);
    let payload = spec_payload_of(v);
    match spec_action_of(v) {
        Action::Append => acc.insert(k, existing + seq![delim] + payload),
        Action::Prepend => acc.insert(k, payload + seq![delim] + existing),
        Action::Assign => acc.insert(k, payload),
    }
}

/// A rule's values applied in order, later values composing on earlier ones.
pub open spec fn spec_apply_var(
    acc: Map<Seq<char>, Seq<char>>,
    host: Map<Seq<char>, Seq<char>>,
    k: Seq<char>,
    values: Seq<Seq<char>>,
    root: Seq<char>,
    delim: char,
) -> Map<Seq<char>, Seq<char>>
    decreases values.len(),
{
    if values.len() == 0 {
        acc
    } else {
        spec_apply_value(
            spec_apply_var(acc, host, k, values.drop_last(), root, delim),
            host,
            k,
            values.last(),
            root,
            delim,
        )
    }
}

/// The rules of one bucket, as character sequences, in declared order.
pub open spec fn rules_view(rules: Seq<(String, EnvVar)>) -> Seq<(Seq<char>, Seq<Seq<char>>)> {
    rules.map_values(|p: (String, EnvVar)| (p.0@, strs_view(p.1.values@)))
}

/// A bucket's rules applied in declared order.
pub open spec fn spec_apply_rules(
    acc: Map<Seq<char>, Seq<char>>,
    host: Map<Seq<char>, Seq<char>>,
    rules: Seq<(Seq<char>, Seq<Seq<char>>)>,
    root: Seq<char>,
    delim: char,
) -> Map<Seq<char>, Seq<char>>
    decreases rules.len(),
{
    if rules.len() == 0 {
        acc
    } else {
        spec_apply_var(
            spec_apply_rules(acc, host, rules.drop_last(), root, delim),
            host,
            rules.last().0,
            rules.last().1,
            root,
            delim,
        )
    }
}

impl Environments {
    /// The bucket of the given platform, or no rules where none is declared.
    pub open spec fn spec_platform_rules(&self, platform: Platform) -> Seq<
        (Seq<char>, Seq<Seq<char>>),
    > {
        let bucket = match platform {
            Platform::Macos => self.macos,
            Platform::Linux => self.linux,
            Platform::Windows => self.windows,
        };
        match bucket {
            Some(rules) => rules_view(rules@),
            None => Seq::empty(),
        }
    }

    /// The full resolution: global rules first, then the platform's bucket,
    /// folded over `base` with `host` as the fallback for existing values.
    pub open spec fn spec_resolved(
        &self,
        base: Map<Seq<char>, Seq<char>>,
        host: Map<Seq<char>, Seq<char>>,
        root: Seq<char>,
        platform: Platform,
    ) -> Map<Seq<char>, Seq<char>> {
        spec_apply_rules(
            spec_apply_rules(base, host, rules_view(self.global@), root, platform.spec_delimiter()),
            host,
            self.spec_platform_rules(platform),
            root,
            platform.spec_delimiter(),
        )
    }
}

/// Applies one rule value to the accumulator.
pub fn apply_env_value(
    acc: &mut EnvMap,
    host: &EnvMap,
    key: &str,
    raw: &str,
    root: &str,
    delim: &str,
)
    requires
        delim@.len() == 1,
    ensures
        final(acc)@ == spec_apply_value(old(acc)@, host@, key@, raw@, root@, delim@[0]),
{
    proof {
        reveal_strlit("{root}");
        assert(delim@ =~= seq![delim@[0]]);
    }
    let substituted = replace_str(raw, "{root}", root);
    let (action, payload) = parse_action(substituted.as_str());
    let existing: String = match acc.get(key) {
        Some(v) => v.clone(),
        None => match host.get(key) {
            Some(v) => v.clone(),
            None => String::new(),
        },
    };
    let value: String = match action {
        Action::Assign => payload,
        Action::Append => {
            let mut t = existing;
            t.append(delim);
            t.append(payload.as_str());
            t
        },
        Action::Prepend => {
            let mut t = payload;
            t.append(delim);
            t.append(existing.as_str());
            t
        },
    };
    acc.insert(key.to_owned(), value);
}

/// Applies one rule (all its values, in order) to the accumulator.
pub fn apply_env_var(
    acc: &mut EnvMap,
    host: &EnvMap,
    key: &str,
    var: &EnvVar,
    root: &str,
    delim: &str,
)
    requires
        delim@.len() == 1,
    ensures
        final(acc)@ == spec_apply_var(
            old(acc)@,
            host@,
            key@,
            strs_view(var.values@),
            root@,
            delim@[0],
        ),
{
    let ghost values = strs_view(var.values@);
    let mut i: usize = 0;
    proof {
        assert(values.subrange(0, 0) =~= Seq::<Seq<char>>::empty());
    }
    while i < var.values.len()
        invariant
            i <= var.values.len(),
            values == strs_view(var.values@),
            values.len() == var.values@.len(),
            delim@.len() == 1,
            acc@ == spec_apply_var(old(acc)@, host@, key@, values.subrange(0, i as int), root@, delim@[0]),
        decreases var.values.len() - i,
    {
        proof {
            assert(values.subrange(0, i + 1).drop_last() =~= values.subrange(0, i as int));
            assert(values.subrange(0, i + 1).last() == values[i as int]);
        }
        apply_env_value(acc, host, key, var.values[i].as_str(), root, delim);
        i += 1;
    }
    proof {
        assert(values.subrange(0, values.len() as int) =~= values);
    }
}

/// Applies a bucket of rules, in declared order, to the accumulator.
pub fn apply_env_rules(
    acc: &mut EnvMap,
    host: &EnvMap,
    rules: &Vec<(String, EnvVar)>,
    root: &str,
    delim: &str,
)
    requires
        delim@.len() == 1,
    ensures
        final(acc)@ == spec_apply_rules(old(acc)@, host@, rules_view(rules@), root@, delim@[0]),
{
    let ghost rv = rules_view(rules@);
    let mut i: usize = 0;
    proof {
        assert(rv.subrange(0, 0) =~= Seq::<(Seq<char>, Seq<Seq<char>>)>::empty());
    }
    while i < rules.len()
        invariant
            i <= rules.len(),
            rv == rules_view(rules@),
            rv.len() == rules@.len(),
            delim@.len() == 1,
            acc@ == spec_apply_rules(old(acc)@, host@, rv.subrange(0, i as int), root@, delim@[0]),
        decreases rules.len() - i,
    {
        proof {
            assert(rv.subrange(0, i + 1).drop_last() =~= rv.subrange(0, i as int));
            assert(rv.subrange(0, i + 1).last() == rv[i as int]);
        }
        apply_env_var(acc, host, rules[i].0.as_str(), &rules[i].1, root, delim);
        i += 1;
    }
    proof {
        assert(rv.subrange(0, rv.len() as int) =~= rv);
    }
}

/// Resolves a manifest's rules onto the accumulator: the global bucket in
/// declared order, then the platform's bucket.
pub fn resolve_env_rules(
    env: &Environments,
    acc: &mut EnvMap,
    host: &EnvMap,
    root: &str,
    platform: Platform,
)
    ensures
        final(acc)@ == env.spec_resolved(old(acc)@, host@, root@, platform),
{
    let delim = platform.delimiter();
    apply_env_rules(acc, host, &env.global, root, delim);
    let bucket: &Option<Vec<(String, EnvVar)>> = match platform {
        Platform::Macos => &env.macos,
        Platform::Linux => &env.linux,
        Platform::Windows => &env.windows,
    };
    match bucket {
        Some(rules) => {
            apply_env_rules(acc, host, rules, root, delim);
        },
        None => {},
    }
}

/// A `set:` value is insensitive to the variable's existing value, so
/// applying it a second time, on top of its own result, changes nothing.
pub proof fn lemma_set_value_idempotent(
    acc: Map<Seq<char>, Seq<char>>,
    host: Map<Seq<char>, Seq<char>>,
    k: Seq<char>,
    raw: Seq<char>,
    root: Seq<char>,
    delim: char,
)
    requires
        spec_action_of(spec_replace(raw, "{root}"@, root)) is Assign,
    ensures
        spec_apply_value(
            spec_apply_value(acc, host, k, raw, root, delim),
            host,
            k,
            raw,
            root,
            delim,
        ) == spec_apply_value(acc, host, k, raw, root, delim),
{
    let once = spec_apply_value(acc, host, k, raw, root, delim);
    let twice = spec_apply_value(once, host, k, raw, root, delim);
    assert(twice =~= once);
}

/// A `set:` value whose payload holds no brace is left alone by the
/// `{root}` substitution, so one application sets the variable to exactly
/// the payload, whatever the base held, and a second application on top of
/// the first changes nothing.  (A payload that embeds `{root}` is first
/// rewritten, so only the substituted text can be promised there.)
pub proof fn lemma_set_value_exact(
    acc: Map<Seq<char>, Seq<char>>,
    host: Map<Seq<char>, Seq<char>>,
    k: Seq<char>,
    s: Seq<char>,
    root: Seq<char>,
    delim: char,
)
    requires
        forall|j: int| 0 <= j < s.len() ==> s[j] != '{',
    ensures
        spec_apply_value(acc, host, k, "set:"@ + s, root, delim) == acc.insert(k, s),
        spec_apply_value(
            spec_apply_value(acc, host, k, "set:"@ + s, root, delim),
            host,
            k,
            "set:"@ + s,
            root,
            delim,
        ) == acc.insert(k, s),
{
    reveal_strlit("set:");
    reveal_strlit("append:");
    reveal_strlit("prepend:");
    reveal_strlit("{root}");
    let raw = "set:"@ + s;
    assert forall|j: int| 0 <= j < raw.len() implies raw[j] != '{' by {
        if j < 4 {
            assert(raw[j] == "set:"@[j]);
        } else {
            assert(raw[j] == s[j - 4]);
        }
    }
    assert("{root}"@[0] == '{');
    crate::strutil::lemma_replace_absent(raw, "{root}"@, root);
    assert(spec_starts_with(raw, "set:"@)) by {
        assert(raw.subrange(0, 4) =~= "set:"@);
    }
    assert(!spec_starts_with(raw, "append:"@)) by {
        if spec_starts_with(raw, "append:"@) {
            assert(raw.subrange(0, "append:"@.len() as int)[0] == raw[0]);
        }
    }
    assert(!spec_starts_with(raw, "prepend:"@)) by {
        if spec_starts_with(raw, "prepend:"@) {
            assert(raw.subrange(0, "prepend:"@.len() as int)[0] == raw[0]);
        }
    }
    assert(spec_payload_of(raw) =~= s);
    assert(spec_apply_value(
        spec_apply_value(acc, host, k, raw, root, delim),
        host,
        k,
        raw,
        root,
        delim,
    ) =~= acc.insert(k, s));
}

/// Resolution is idempotent on a `set:` value: a manifest whose rules are
/// one rule with one `set:` value, resolved twice over the same base and
/// host, yields what one resolution yields — no double-concatenation.
pub proof fn lemma_set_rule_resolution_idempotent(
    env: Environments,
    base: Map<Seq<char>, Seq<char>>,
    host: Map<Seq<char>, Seq<char>>,
    root: Seq<char>,
    platform: Platform,
)
    requires
        env.macos is None,
        env.linux is None,
        env.windows is None,
        env.global@.len() == 1,
        env.global@[0].1.values@.len() == 1,
        spec_action_of(spec_replace(env.global@[0].1.values@[0]@, "{root}"@, root)) is Assign,
    ensures
        env.spec_resolved(env.spec_resolved(base, host, root, platform), host, root, platform)
            == env.spec_resolved(base, host, root, platform),
{
    let delim = platform.spec_delimiter();
    let rules = rules_view(env.global@);
    let k = rules[0].0;
    let values = rules[0].1;
    let raw = values[0];
    assert(raw == env.global@[0].1.values@[0]@);
    assert(env.spec_platform_rules(platform) =~= Seq::<(Seq<char>, Seq<Seq<char>>)>::empty());
    assert forall|b: Map<Seq<char>, Seq<char>>| #[trigger] env.spec_resolved(
        b,
        host,
        root,
        platform,
    ) == spec_apply_value(b, host, k, raw, root, delim) by {
        assert(rules.len() == 1);
        assert(rules.drop_last() =~= Seq::<(Seq<char>, Seq<Seq<char>>)>::empty());
        assert(rules.last() == rules[0]);
        assert(values.drop_last() =~= Seq::<Seq<char>>::empty());
        assert(values.last() == raw);
        let after_global = spec_apply_rules(b, host, rules, root, delim);
        assert(spec_apply_rules(b, host, rules.drop_last(), root, delim) == b);
        assert(after_global == spec_apply_var(b, host, k, values, root, delim));
        assert(spec_apply_var(b, host, k, values.drop_last(), root, delim) == b);
        assert(after_global == spec_apply_value(b, host, k, raw, root, delim));
        assert(env.spec_resolved(b, host, root, platform) == spec_apply_rules(
            after_global,
            host,
            env.spec_platform_rules(platform),
            root,
            delim,
        ));
        assert(spec_apply_rules(after_global, host, env.spec_platform_rules(platform), root, delim)
            == after_global);
    }
    lemma_set_value_idempotent(base, host, k, raw, root, delim);
}

} // verus!
