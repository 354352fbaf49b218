//! Verified helpers over `&str` / `String`, used throughout the crate for
//! address parsing, environment-value handling and command-line assembly.

use vstd::prelude::*;

verus! {

broadcast use vstd::string::group_string_axioms;

/// The character sequences of a list of strings.
pub open spec fn strs_view(s: Seq<String>) -> Seq<Seq<char>> {
    s.map_values(|x: String| x@)
}

/// The characters an optional string holds.
pub open spec fn opt_str_view(o: Option<String>) -> Option<Seq<char>> {
    match o {
        Some(s) => Some(s@),
        None => None,
    }
}

/// `p` is a prefix of `s`.
pub open spec fn spec_starts_with(s: Seq<char>, p: Seq<char>) -> bool {
    p.len() <= s.len() && s.subrange(0, p.len() as int) == p
}

/// Whether the strings `a` and `b` hold the same characters.
pub fn str_eq(a: &str, b: &str) -> (r: bool)
    ensures
        r == (a@ == b@),
{
    let alen = a.unicode_len();
    let blen = b.unicode_len();
    if alen != blen {
        assert(a@ != b@) by {
            assert(a@.len() != b@.len());
        }
        return false;
    }
    let mut i: usize = 0;
    while i < alen
        invariant
            i <= alen,
            alen == a@.len(),
            alen == b@.len(),
            forall|j: int| 0 <= j < i ==> a@[j] == b@[j],
        decreases alen - i,
    {
        if a.get_char(i) != b.get_char(i) {
            return false;
        }
        i += 1;
    }
    proof {
        assert(a@ =~= b@);
    }
    true
}

/// Whether `p` is a prefix of `s`.
pub fn starts_with_str(s: &str, p: &str) -> (r: bool)
    ensures
        r == spec_starts_with(s@, p@),
{
    let slen = s.unicode_len();
    let plen = p.unicode_len();
    if plen > slen {
        return false;
    }
    let mut i: usize = 0;
    while i < plen
        invariant
            i <= plen,
            slen == s@.len(),
            plen == p@.len(),
            plen <= slen,
            forall|j: int| 0 <= j < i ==> s@[j] == p@[j],
        decreases plen - i,
    {
        if s.get_char(i) != p.get_char(i) {
            assert(!spec_starts_with(s@, p@)) by {
                assert(s@.subrange(0, p@.len() as int)[i as int] == s@[i as int]);
            }
            return false;
        }
        i += 1;
    }
    proof {
        assert(s@.subrange(0, p@.len() as int) =~= p@);
    }
    true
}

/// The concatenation of two strings.
pub fn concat_str(a: &str, b: &str) -> (r: String)
    ensures
        r@ == a@ + b@,
{
    let mut out = a.to_owned();
    out.append(b);
    out
}

/// How many times the character `c` occurs in `s`.
pub open spec fn spec_count_char(s: Seq<char>, c: char) -> nat
    decreases s.len(),
{
    if s.len() == 0 {
        0
    } else {
        spec_count_char(s.drop_last(), c) + if s.last() == c {
            1nat
        } else {
            0nat
        }
    }
}

/// Counts the occurrences of `c` in `s`.
pub fn count_char(s: &str, c: char) -> (n: usize)
    ensures
        n == spec_count_char(s@, c),
{
    let len = s.unicode_len();
    let mut i: usize = 0;
    let mut n: usize = 0;
    while i < len
        invariant
            i <= len,
            len == s@.len(),
            n == spec_count_char(s@.subrange(0, i as int), c),
            n <= i,
        decreases len - i,
    {
        proof {
            assert(s@.subrange(0, i + 1).drop_last() =~= s@.subrange(0, i as int));
            assert(s@.subrange(0, i + 1).last() == s@[i as int]);
        }
        if s.get_char(i) == c {
            n += 1;
        }
        i += 1;
    }
    proof {
        assert(s@.subrange(0, len as int) =~= s@);
    }
    n
}

/// The position of the first occurrence of `c` in `s`.
pub fn find_char(s: &str, c: char) -> (r: Option<usize>)
    ensures
        match r {
            Some(i) => i < s@.len() && s@[i as int] == c && forall|j: int|
                0 <= j < i ==> s@[j] != c,
            None => forall|j: int| 0 <= j < s@.len() ==> s@[j] != c,
        },
{
    let len = s.unicode_len();
    let mut i: usize = 0;
    while i < len
        invariant
            i <= len,
            len == s@.len(),
            forall|j: int| 0 <= j < i ==> s@[j] != c,
        decreases len - i,
    {
        if s.get_char(i) == c {
            return Some(i);
        }
        i += 1;
    }
    None
}

/// Counting distributes over concatenation.
pub proof fn lemma_count_char_concat(a: Seq<char>, b: Seq<char>, c: char)
    ensures
        spec_count_char(a + b, c) == spec_count_char(a, c) + spec_count_char(b, c),
    decreases b.len(),
{
    if b.len() == 0 {
        assert(a + b =~= a);
    } else {
        assert((a + b).drop_last() =~= a + b.drop_last());
        assert((a + b).last() == b.last());
        lemma_count_char_concat(a, b.drop_last(), c);
    }
}

/// A count of zero means the character does not occur.
pub proof fn lemma_count_char_zero(s: Seq<char>, c: char)
    ensures
        (spec_count_char(s, c) == 0) <==> (forall|j: int| 0 <= j < s.len() ==> s[j] != c),
    decreases s.len(),
{
    if s.len() > 0 {
        lemma_count_char_zero(s.drop_last(), c);
        assert(forall|j: int| 0 <= j < s.len() - 1 ==> s[j] == s.drop_last()[j]);
        assert(s.last() == s[s.len() - 1]);
    }
}

/// Two distinct occurrences mean a count of at least two.
pub proof fn lemma_count_char_two(s: Seq<char>, c: char, i: int, j: int)
    requires
        0 <= i < j < s.len(),
        s[i] == c,
        s[j] == c,
    ensures
        spec_count_char(s, c) >= 2,
    decreases s.len(),
{
    if j == s.len() - 1 {
        lemma_count_char_zero(s.drop_last(), c);
        assert(s.drop_last()[i] == c);
        assert(spec_count_char(s.drop_last(), c) != 0);
    } else {
        assert(s.drop_last()[i] == c && s.drop_last()[j] == c);
        lemma_count_char_two(s.drop_last(), c, i, j);
    }
}

/// Where some occurrence of `c` exists, a first one does.
pub proof fn lemma_first_occurrence(s: Seq<char>, c: char)
    requires
        exists|i: int| 0 <= i < s.len() && s[i] == c,
    ensures
        exists|i: int|
            0 <= i < s.len() && s[i] == c && (forall|j: int| 0 <= j < i ==> s[j] != c),
    decreases s.len(),
{
    if s[0] == c {
        assert(0 <= 0 < s.len() && s[0] == c && (forall|j: int| 0 <= j < 0 ==> s[j] != c));
    } else {
        let w = choose|i: int| 0 <= i < s.len() && s[i] == c;
        assert(s.skip(1)[w - 1] == c);
        lemma_first_occurrence(s.skip(1), c);
        let f = choose|i: int|
            0 <= i < s.skip(1).len() && s.skip(1)[i] == c && (forall|j: int|
                0 <= j < i ==> s.skip(1)[j] != c);
        assert(s[f + 1] == c);
        assert(forall|j: int| 1 <= j < f + 1 ==> s[j] == s.skip(1)[j - 1]);
        assert(0 <= f + 1 < s.len() && s[f + 1] == c && (forall|j: int|
            0 <= j < f + 1 ==> s[j] != c));
    }
}

/// Where some occurrence of `c` exists, a last one does.
pub proof fn lemma_last_occurrence(s: Seq<char>, c: char)
    requires
        exists|i: int| 0 <= i < s.len() && s[i] == c,
    ensures
        exists|i: int|
            0 <= i < s.len() && s[i] == c && (forall|j: int| i < j < s.len() ==> s[j] != c),
    decreases s.len(),
{
    if s.last() == c {
        assert(0 <= s.len() - 1 < s.len() && s[s.len() - 1] == c && (forall|j: int|
            s.len() - 1 < j < s.len() ==> s[j] != c));
    } else {
        let w = choose|i: int| 0 <= i < s.len() && s[i] == c;
        assert(s.drop_last()[w] == c);
        lemma_last_occurrence(s.drop_last(), c);
        let f = choose|i: int|
            0 <= i < s.drop_last().len() && s.drop_last()[i] == c && (forall|j: int|
                i < j < s.drop_last().len() ==> s.drop_last()[j] != c);
        assert(s[f] == c);
        assert(forall|j: int| f < j < s.len() - 1 ==> s[j] == s.drop_last()[j]);
        assert(0 <= f < s.len() && s[f] == c && (forall|j: int| f < j < s.len() ==> s[j] != c));
    }
}

/// `s` with every occurrence of the character `c` removed.
pub open spec fn spec_remove_char(s: Seq<char>, c: char) -> Seq<char>
    decreases s.len(),
{
    if s.len() == 0 {
        s
    } else if s.last() == c {
        spec_remove_char(s.drop_last(), c)
    } else {
        spec_remove_char(s.drop_last(), c).push(s.last())
    }
}

/// Removes every occurrence of `c` from `s`.
pub fn remove_char(s: &str, c: char) -> (r: String)
    ensures
        r@ == spec_remove_char(s@, c),
{
    let len = s.unicode_len();
    let mut out = String::new();
    let mut i: usize = 0;
    while i < len
        invariant
            i <= len,
            len == s@.len(),
            out@ == spec_remove_char(s@.subrange(0, i as int), c),
        decreases len - i,
    {
        proof {
            assert(s@.subrange(0, i + 1).drop_last() =~= s@.subrange(0, i as int));
            assert(s@.subrange(0, i + 1).last() == s@[i as int]);
        }
        if s.get_char(i) != c {
            let piece = s.substring_char(i, i + 1);
            out.append(piece);
            proof {
                assert(out@ =~= spec_remove_char(s@.subrange(0, i + 1), c));
            }
        }
        i += 1;
    }
    proof {
        assert(s@.subrange(0, len as int) =~= s@);
    }
    out
}

/// Removal distributes over concatenation.
pub proof fn lemma_remove_char_concat(a: Seq<char>, b: Seq<char>, c: char)
    ensures
        spec_remove_char(a + b, c) == spec_remove_char(a, c) + spec_remove_char(b, c),
    decreases b.len(),
{
    if b.len() == 0 {
        assert(a + b =~= a);
        assert(spec_remove_char(a, c) + spec_remove_char(b, c) =~= spec_remove_char(a, c));
    } else {
        assert((a + b).drop_last() =~= a + b.drop_last());
        assert((a + b).last() == b.last());
        lemma_remove_char_concat(a, b.drop_last(), c);
        if b.last() != c {
            assert(spec_remove_char(a, c) + spec_remove_char(b.drop_last(), c).push(b.last())
                =~= (spec_remove_char(a, c) + spec_remove_char(b.drop_last(), c)).push(b.last()));
        }
    }
}

/// Removing an absent character changes nothing.
pub proof fn lemma_remove_char_id(s: Seq<char>, c: char)
    requires
        forall|j: int| 0 <= j < s.len() ==> s[j] != c,
    ensures
        spec_remove_char(s, c) == s,
    decreases s.len(),
{
    if s.len() > 0 {
        assert(forall|j: int| 0 <= j < s.len() - 1 ==> s.drop_last()[j] == s[j]);
        lemma_remove_char_id(s.drop_last(), c);
        assert(spec_remove_char(s, c) =~= s);
    }
}

/// Removing one character cannot introduce another.
pub proof fn lemma_remove_char_keeps_missing(s: Seq<char>, c: char, d: char)
    requires
        forall|j: int| 0 <= j < s.len() ==> s[j] != d,
    ensures
        forall|j: int| 0 <= j < spec_remove_char(s, c).len() ==> spec_remove_char(s, c)[j] != d,
    decreases s.len(),
{
    if s.len() > 0 {
        assert(forall|j: int| 0 <= j < s.len() - 1 ==> s.drop_last()[j] == s[j]);
        lemma_remove_char_keeps_missing(s.drop_last(), c, d);
        assert(s.last() == s[s.len() - 1]);
        if s.last() != c {
            let r0 = spec_remove_char(s.drop_last(), c);
            assert forall|j: int| 0 <= j < r0.push(s.last()).len() implies r0.push(s.last())[j]
                != d by {
                if j == r0.len() {
                    assert(r0.push(s.last())[j] == s.last());
                }
            }
        }
    }
}

/// `s` with every non-overlapping occurrence of `pat`, scanned left to
/// right, replaced by `repl`.
pub open spec fn spec_replace(s: Seq<char>, pat: Seq<char>, repl: Seq<char>) -> Seq<char>
    decreases s.len(),
{
    if pat.len() == 0 || s.len() < pat.len() {
        s
    } else if s.subrange(0, pat.len() as int) == pat {
        repl + spec_replace(s.skip(pat.len() as int), pat, repl)
    } else {
        seq![s[0]] + spec_replace(s.skip(1), pat, repl)
    }
}

/// Replaces every occurrence of `pat` in `s` by `repl`, left to right,
/// without rescanning replaced text.
pub fn replace_str(s: &str, pat: &str, repl: &str) -> (r: String)
    requires
        pat@.len() > 0,
    ensures
        r@ == spec_replace(s@, pat@, repl@),
{
    let slen = s.unicode_len();
    let plen = pat.unicode_len();
    let mut out = String::new();
    let mut i: usize = 0;
    proof {
        assert(s@.skip(0) =~= s@);
        assert(out@ + spec_replace(s@, pat@, repl@) =~= spec_replace(s@, pat@, repl@));
    }
    while i < slen
        invariant
            i <= slen,
            slen == s@.len(),
            plen == pat@.len(),
            plen > 0,
            spec_replace(s@, pat@, repl@) == out@ + spec_replace(s@.skip(i as int), pat@, repl@),
        decreases slen - i,
    {
        let ghost rem = s@.skip(i as int);
        if plen <= slen - i && str_eq(s.substring_char(i, i + plen), pat) {
            proof {
                assert(rem.subrange(0, plen as int) =~= s@.subrange(
                    i as int,
                    i + plen,
                ));
                assert(rem.skip(plen as int) =~= s@.skip(i + plen));
            }
            out.append(repl);
            i += plen;
        } else {
            proof {
                if rem.len() >= plen {
                    // the head of the remainder does not match the pattern
                    assert(rem.subrange(0, plen as int) =~= s@.subrange(
                        i as int,
                        i + plen,
                    ));
                } else {
                    // too short to match: the remainder is kept as it is
                    assert(spec_replace(rem, pat@, repl@) == rem);
                    assert(spec_replace(rem.skip(1), pat@, repl@) == rem.skip(1));
                    assert(rem =~= seq![rem[0]] + rem.skip(1));
                }
                assert(rem.skip(1) =~= s@.skip(i + 1));
                assert(s@.subrange(i as int, i + 1) =~= seq![rem[0]]);
            }
            let piece = s.substring_char(i, i + 1);
            out.append(piece);
            i += 1;
        }
    }
    proof {
        assert(s@.skip(slen as int) =~= Seq::<char>::empty());
        assert(s@ =~= s@.skip(0));
    }
    out
}

/// Replacement leaves a text untouched when the pattern's first character
/// does not occur in it.
pub proof fn lemma_replace_absent(s: Seq<char>, pat: Seq<char>, repl: Seq<char>)
    requires
        pat.len() > 0,
        forall|j: int| 0 <= j < s.len() ==> s[j] != pat[0],
    ensures
        spec_replace(s, pat, repl) == s,
    decreases s.len(),
{
    if s.len() >= pat.len() {
        assert(s.subrange(0, pat.len() as int)[0] == s[0]);
        assert(s.subrange(0, pat.len() as int) != pat);
        assert(forall|j: int| 0 <= j < s.skip(1).len() ==> s.skip(1)[j] == s[j + 1]);
        lemma_replace_absent(s.skip(1), pat, repl);
        assert(seq![s[0]] + s.skip(1) =~= s);
    }
}

/// The decimal digit for a value below ten.
pub open spec fn spec_digit(d: nat) -> char {
    if d == 0 {
        '0'
    } else if d == 1 {
        '1'
    } else if d == 2 {
        '2'
    } else if d == 3 {
        '3'
    } else if d == 4 {
        '4'
    } else if d == 5 {
        '5'
    } else if d == 6 {
        '6'
    } else if d == 7 {
        '7'
    } else if d == 8 {
        '8'
    } else {
        '9'
    }
}

/// The decimal notation of `n`, without a sign and without leading zeros.
pub open spec fn spec_u64_str(n: nat) -> Seq<char>
    decreases n,
{
    if n < 10 {
        seq![spec_digit(n)]
    } else {
        spec_u64_str(n / 10).push(spec_digit(n % 10))
    }
}

/// Decimal notation is never empty and holds digits only.
pub proof fn lemma_u64_str_digits(n: nat)
    ensures
        spec_u64_str(n).len() >= 1,
        forall|j: int| 0 <= j < spec_u64_str(n).len() ==> '0' <= #[trigger] spec_u64_str(n)[j]
            <= '9',
    decreases n,
{
    if n >= 10 {
        lemma_u64_str_digits(n / 10);
        assert(forall|j: int| 0 <= j < spec_u64_str(n).len() - 1 ==> spec_u64_str(n)[j]
            == spec_u64_str(n / 10)[j]);
        assert(spec_u64_str(n).last() == spec_digit(n % 10));
    }
}

/// Two numbers with one decimal notation are one number.
pub proof fn lemma_u64_str_injective(a: nat, b: nat)
    requires
        spec_u64_str(a) == spec_u64_str(b),
    ensures
        a == b,
    decreases a,
{
    lemma_u64_str_digits(a);
    lemma_u64_str_digits(b);
    if a < 10 && b < 10 {
        assert(spec_u64_str(a)[0] == spec_digit(a));
        assert(spec_u64_str(b)[0] == spec_digit(b));
    } else if a < 10 {
        assert(spec_u64_str(b).len() >= 2) by {
            lemma_u64_str_digits(b / 10);
        }
    } else if b < 10 {
        assert(spec_u64_str(a).len() >= 2) by {
            lemma_u64_str_digits(a / 10);
        }
    } else {
        assert(spec_u64_str(a).last() == spec_digit(a % 10));
        assert(spec_u64_str(b).last() == spec_digit(b % 10));
        assert(a % 10 == b % 10);
        assert(spec_u64_str(a).drop_last() =~= spec_u64_str(a / 10));
        assert(spec_u64_str(b).drop_last() =~= spec_u64_str(b / 10));
        lemma_u64_str_injective(a / 10, b / 10);
    }
}

fn digit_to_str(d: u64) -> (r: &'static str)
    requires
        d < 10,
    ensures
        r@ == seq![spec_digit(d as nat)],
{
    proof {
        reveal_strlit("0");
        reveal_strlit("1");
        reveal_strlit("2");
        reveal_strlit("3");
        reveal_strlit("4");
        reveal_strlit("5");
        reveal_strlit("6");
        reveal_strlit("7");
        reveal_strlit("8");
        reveal_strlit("9");
    }
    let r = if d == 0 {
        "0"
    } else if d == 1 {
        "1"
    } else if d == 2 {
        "2"
    } else if d == 3 {
        "3"
    } else if d == 4 {
        "4"
    } else if d == 5 {
        "5"
    } else if d == 6 {
        "6"
    } else if d == 7 {
        "7"
    } else if d == 8 {
        "8"
    } else {
        "9"
    };
    proof {
        assert(r@ =~= seq![spec_digit(d as nat)]);
    }
    r
}

/// Writes `n` in decimal.
pub fn u64_to_string(n: u64) -> (r: String)
    ensures
        r@ == spec_u64_str(n as nat),
    decreases n,
{
    if n < 10 {
        digit_to_str(n).to_owned()
    } else {
        let mut r = u64_to_string(n / 10);
        r.append(digit_to_str(n % 10));
        proof {
            assert(r@ =~= spec_u64_str((n / 10) as nat).push(spec_digit((n % 10) as nat)));
        }
        r
    }
}

/// The whitespace characters that trimming strips.
pub open spec fn spec_is_ws(c: char) -> bool {
    c == ' ' || c == '\t' || c == '\n' || c == '\r'
}

/// `s` without its leading whitespace.
pub open spec fn spec_trim_start(s: Seq<char>) -> Seq<char>
    decreases s.len(),
{
    if s.len() > 0 && spec_is_ws(s[0]) {
        spec_trim_start(s.skip(1))
    } else {
        s
    }
}

/// `s` without its trailing whitespace.
pub open spec fn spec_trim_end(s: Seq<char>) -> Seq<char>
    decreases s.len(),
{
    if s.len() > 0 && spec_is_ws(s.last()) {
        spec_trim_end(s.drop_last())
    } else {
        s
    }
}

/// `s` without leading and trailing whitespace.
pub open spec fn spec_trim(s: Seq<char>) -> Seq<char> {
    spec_trim_end(spec_trim_start(s))
}

fn is_ws_char(c: char) -> (r: bool)
    ensures
        r == spec_is_ws(c),
{
    c == ' ' || c == '\t' || c == '\n' || c == '\r'
}

/// Strips leading and trailing whitespace from `s`.
pub fn trim_str(s: &str) -> (r: String)
    ensures
        r@ == spec_trim(s@),
{
    let len = s.unicode_len();
    let mut a: usize = 0;
    proof {
        assert(s@.skip(0) =~= s@);
    }
    while a < len && is_ws_char(s.get_char(a))
        invariant
            a <= len,
            len == s@.len(),
            spec_trim_start(s@) == spec_trim_start(s@.skip(a as int)),
        decreases len - a,
    {
        proof {
            assert(s@.skip(a as int).skip(1) =~= s@.skip(a + 1));
        }
        a += 1;
    }
    proof {
        if a < len {
            assert(spec_trim_start(s@.skip(a as int)) == s@.skip(a as int));
        } else {
            assert(s@.skip(a as int) =~= Seq::<char>::empty());
        }
    }
    let mut b: usize = len;
    while b > a && is_ws_char(s.get_char(b - 1))
        invariant
            a <= b <= len,
            len == s@.len(),
            spec_trim_start(s@) == s@.skip(a as int),
            spec_trim_end(s@.skip(a as int)) == spec_trim_end(s@.subrange(a as int, b as int)),
        decreases b,
    {
        proof {
            assert(s@.subrange(a as int, b as int).last() == s@[b - 1]);
            assert(s@.subrange(a as int, b as int).drop_last() =~= s@.subrange(
                a as int,
                b - 1,
            ));
        }
        b -= 1;
    }
    proof {
        if b > a {
            assert(spec_trim_end(s@.subrange(a as int, b as int)) == s@.subrange(
                a as int,
                b as int,
            ));
        } else {
            assert(s@.subrange(a as int, b as int) =~= Seq::<char>::empty());
        }
    }
    s.substring_char(a, b).to_owned()
}

/// The elements of `parts` joined by `sep`.
pub open spec fn spec_join(parts: Seq<Seq<char>>, sep: Seq<char>) -> Seq<char>
    decreases parts.len(),
{
    if parts.len() == 0 {
        Seq::empty()
    } else if parts.len() == 1 {
        parts[0]
    } else {
        spec_join(parts.drop_last(), sep) + sep + parts.last()
    }
}

/// Joins the strings of `parts` with `sep` between each pair of neighbours.
pub fn join_str(parts: &Vec<String>, sep: &str) -> (r: String)
    ensures
        r@ == spec_join(crate::strutil::strs_view(parts@), sep@),
{
    let ghost views = crate::strutil::strs_view(parts@);
    let mut out = String::new();
    let mut i: usize = 0;
    while i < parts.len()
        invariant
            i <= parts.len(),
            views == crate::strutil::strs_view(parts@),
            views.len() == parts@.len(),
            out@ == spec_join(views.subrange(0, i as int), sep@),
        decreases parts.len() - i,
    {
        proof {
            assert(views.subrange(0, i + 1).drop_last() =~= views.subrange(0, i as int));
            assert(views.subrange(0, i + 1).last() == views[i as int]);
        }
        if i > 0 {
            out.append(sep);
        }
        out.append(parts[i].as_str());
        proof {
            if i == 0 {
                assert(out@ =~= views.subrange(0, 1)[0]);
            }
        }
        i += 1;
    }
    proof {
        assert(views.subrange(0, parts@.len() as int) =~= views);
    }
    out
}

} // verus!
