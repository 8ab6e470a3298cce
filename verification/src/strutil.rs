//! Verified string helpers: equality, search, affix stripping, trimming,
//! case-insensitive comparison, lexicographic order, decimal parsing and
//! rendering.

use vstd::prelude::*;

verus! {

// ============================================================================
// Characters
// ============================================================================

/// A decimal digit.
pub open spec fn spec_is_digit(c: char) -> bool {
    '0' <= c && c <= '9'
}

/// Numeric value of a digit character.
pub open spec fn spec_digit_val(c: char) -> int {
    c as int - '0' as int
}

/// The digit character for a value below ten.
pub open spec fn spec_digit_char(v: int) -> char {
    (v + '0' as int) as char
}

/// ASCII whitespace, as trimming removes it.
pub open spec fn spec_is_space(c: char) -> bool {
    c == ' ' || c == '\t' || c == '\n' || c == '\r'
}

/// Check a character for being a decimal digit.
pub fn is_digit_char(c: char) -> (r: bool)
    ensures
        r == spec_is_digit(c),
{
    '0' <= c && c <= '9'
}

/// Check a character for being ASCII whitespace.
pub fn is_space_char(c: char) -> (r: bool)
    ensures
        r == spec_is_space(c),
{
    c == ' ' || c == '\t' || c == '\n' || c == '\r'
}

// ============================================================================
// Equality and search
// ============================================================================

/// `pat` occurs in `s` at position `i`.
pub open spec fn spec_match_at(s: Seq<char>, pat: Seq<char>, i: int) -> bool {
    0 <= i && i + pat.len() <= s.len() && s.subrange(i, i + pat.len() as int) == pat
}

/// `pat` occurs somewhere in `s`.
pub open spec fn spec_contains_seq(s: Seq<char>, pat: Seq<char>) -> bool {
    exists|i: int| spec_match_at(s, pat, i)
}

/// Compare two string slices for equality of their character sequences.
pub fn str_eq(a: &str, b: &str) -> (r: bool)
    ensures
        r == (a@ == b@),
{
    let na = a.unicode_len();
    let nb = b.unicode_len();
    if na != nb {
        return false;
    }
    let mut i: usize = 0;
    while i < na
        invariant
            na == a@.len(),
            na == b@.len(),
            i <= na,
            forall|k: int| 0 <= k < i ==> a@[k] == b@[k],
        decreases na - i,
    {
        if a.get_char(i) != b.get_char(i) {
            return false;
        }
        i += 1;
    }
    proof {
        assert(a@ =~= b@);
    }
    true
}

/// Whether `pat` stands at position `i` of `s`.
pub fn match_at(s: &str, pat: &str, i: usize) -> (r: bool)
    requires
        i + pat@.len() <= s@.len(),
    ensures
        r == spec_match_at(s@, pat@, i as int),
{
    let ns = s.unicode_len();
    let np = pat.unicode_len();
    let mut j: usize = 0;
    while j < np
        invariant
            ns == s@.len(),
            np == pat@.len(),
            i + np <= ns,
            j <= np,
            forall|k: int| 0 <= k < j ==> s@[i + k] == pat@[k],
        decreases np - j,
    {
        if s.get_char(i + j) != pat.get_char(j) {
            proof {
                if spec_match_at(s@, pat@, i as int) {
                    assert(s@.subrange(i as int, i + pat@.len() as int)[j as int] == pat@[j as int]);
                }
            }
            return false;
        }
        j += 1;
    }
    proof {
        assert(s@.subrange(i as int, i + pat@.len() as int) =~= pat@);
    }
    true
}

/// Whether `pat` occurs anywhere in `s`.
pub fn contains_str(s: &str, pat: &str) -> (r: bool)
    ensures
        r == spec_contains_seq(s@, pat@),
{
    let ns = s.unicode_len();
    let np = pat.unicode_len();
    if np > ns {
        proof {
            assert(forall|i: int| !spec_match_at(s@, pat@, i));
        }
        return false;
    }
    if np == 0 {
        proof {
            assert(s@.subrange(0, 0) =~= pat@);
            assert(spec_match_at(s@, pat@, 0));
        }
        return true;
    }
    let mut i: usize = 0;
    while i <= ns - np
        invariant
            ns == s@.len(),
            np == pat@.len(),
            0 < np <= ns,
            i <= ns - np + 1,
            forall|k: int| 0 <= k < i ==> !spec_match_at(s@, pat@, k),
        decreases ns - i,
    {
        if match_at(s, pat, i) {
            return true;
        }
        i += 1;
    }
    proof {
        assert(forall|k: int| spec_match_at(s@, pat@, k) ==> 0 <= k <= ns - np);
    }
    false
}

/// Whether `s` starts with `pat`.
pub fn starts_with(s: &str, pat: &str) -> (r: bool)
    ensures
        r == (pat@.len() <= s@.len() && s@.subrange(0, pat@.len() as int) == pat@),
{
    let ns = s.unicode_len();
    let np = pat.unicode_len();
    if np > ns {
        return false;
    }
    match_at(s, pat, 0)
}

/// Whether `s` ends with `pat`.
pub fn ends_with(s: &str, pat: &str) -> (r: bool)
    ensures
        r == (pat@.len() <= s@.len() && s@.subrange(
            s@.len() - pat@.len(),
            s@.len() as int,
        ) == pat@),
{
    let ns = s.unicode_len();
    let np = pat.unicode_len();
    if np > ns {
        return false;
    }
    match_at(s, pat, ns - np)
}

/// The rest of `s` after `pat`, where `s` starts with `pat`.
pub fn strip_prefix<'a>(s: &'a str, pat: &str) -> (r: Option<&'a str>)
    ensures
        (r is Some) == (pat@.len() <= s@.len() && s@.subrange(0, pat@.len() as int) == pat@),
        r matches Some(rest) ==> rest@ == s@.subrange(pat@.len() as int, s@.len() as int),
{
    let ns = s.unicode_len();
    let np = pat.unicode_len();
    if np > ns {
        return None;
    }
    if match_at(s, pat, 0) {
        Some(s.substring_char(np, ns))
    } else {
        None
    }
}

/// The front of `s` before a trailing `pat`, where `s` ends with `pat`.
pub fn strip_suffix<'a>(s: &'a str, pat: &str) -> (r: Option<&'a str>)
    ensures
        (r is Some) == (pat@.len() <= s@.len() && s@.subrange(
            s@.len() - pat@.len(),
            s@.len() as int,
        ) == pat@),
        r matches Some(front) ==> front@ == s@.subrange(0, s@.len() - pat@.len()),
{
    let ns = s.unicode_len();
    let np = pat.unicode_len();
    if np > ns {
        return None;
    }
    if match_at(s, pat, ns - np) {
        Some(s.substring_char(0, ns - np))
    } else {
        None
    }
}

/// Position of the first occurrence of `c` in `s`.
pub open spec fn spec_find_char(s: Seq<char>, c: char) -> Option<int>
    decreases s.len(),
{
    if s.len() == 0 {
        None
    } else if s[0] == c {
        Some(0int)
    } else {
        match spec_find_char(s.skip(1), c) {
            Some(i) => Some(i + 1),
            None => None,
        }
    }
}

/// What `spec_find_char` returns: the first index holding `c`, or `None`
/// where `c` does not occur.
pub proof fn lemma_find_char_props(s: Seq<char>, c: char)
    ensures
        match spec_find_char(s, c) {
            Some(i) => 0 <= i < s.len() && s[i] == c && (forall|k: int| 0 <= k < i ==> s[k] != c),
            None => forall|k: int| 0 <= k < s.len() ==> s[k] != c,
        },
    decreases s.len(),
{
    if s.len() > 0 && s[0] != c {
        lemma_find_char_props(s.skip(1), c);
        assert forall|k: int| 0 <= k < s.len() implies (s[k] == c ==> (spec_find_char(
            s,
            c,
        ) matches Some(i) && k >= i)) by {
            if k > 0 {
                assert(s.skip(1)[k - 1] == s[k]);
            }
        }
        match spec_find_char(s.skip(1), c) {
            Some(i) => {
                assert(s[i + 1] == s.skip(1)[i]);
                assert forall|k: int| 0 <= k < i + 1 implies s[k] != c by {
                    if k > 0 {
                        assert(s[k] == s.skip(1)[k - 1]);
                    }
                }
            },
            None => {},
        }
    }
}

/// Any index holding `c` with nothing holding `c` before it is the one
/// `spec_find_char` returns.
pub proof fn lemma_find_char_unique(s: Seq<char>, c: char, i: int)
    requires
        0 <= i < s.len(),
        s[i] == c,
        forall|k: int| 0 <= k < i ==> s[k] != c,
    ensures
        spec_find_char(s, c) == Some(i),
{
    lemma_find_char_props(s, c);
    match spec_find_char(s, c) {
        Some(j) => {
            if j < i {
                assert(s[j] != c);
            }
            if j > i {
                assert(s[i] != c);
            }
        },
        None => {
            assert(s[i] != c);
        },
    }
}

/// First position of character `c` in `s`.
pub fn find_char(s: &str, c: char) -> (r: Option<usize>)
    ensures
        r matches Some(i) ==> i < s@.len() && s@[i as int] == c && (forall|k: int|
            0 <= k < i ==> s@[k] != c) && spec_find_char(s@, c) == Some(i as int),
        r is None ==> (forall|k: int| 0 <= k < s@.len() ==> s@[k] != c) && spec_find_char(
            s@,
            c,
        ) is None,
{
    let ns = s.unicode_len();
    let mut i: usize = 0;
    while i < ns
        invariant
            ns == s@.len(),
            i <= ns,
            forall|k: int| 0 <= k < i ==> s@[k] != c,
        decreases ns - i,
    {
        if s.get_char(i) == c {
            proof {
                lemma_find_char_unique(s@, c, i as int);
            }
            return Some(i);
        }
        i += 1;
    }
    proof {
        lemma_find_char_props(s@, c);
        match spec_find_char(s@, c) {
            Some(j) => {
                assert(s@[j] != c);
            },
            None => {},
        }
    }
    None
}

/// Split at the first occurrence of `c`: the part before it and the part
/// after it, without the separator itself.
pub fn split_once_char<'a>(s: &'a str, c: char) -> (r: Option<(&'a str, &'a str)>)
    ensures
        r matches Some(kv) ==> exists|i: int|
            {
                &&& 0 <= i < s@.len()
                &&& s@[i] == c
                &&& (forall|k: int| 0 <= k < i ==> s@[k] != c)
                &&& kv.0@ == s@.subrange(0, i)
                &&& kv.1@ == s@.subrange(i + 1, s@.len() as int)
            },
        r is None ==> forall|k: int| 0 <= k < s@.len() ==> s@[k] != c,
{
    let ns = s.unicode_len();
    match find_char(s, c) {
        Some(i) => {
            let front = s.substring_char(0, i);
            let back = s.substring_char(i + 1, ns);
            proof {
                let gi = i as int;
                assert(0 <= gi < s@.len() && s@[gi] == c && (forall|k: int|
                    0 <= k < gi ==> s@[k] != c) && front@ == s@.subrange(0, gi) && back@
                    == s@.subrange(gi + 1, s@.len() as int));
            }
            Some((front, back))
        },
        None => None,
    }
}

/// The pieces of `s` between occurrences of `c`: one piece more than
/// there are separators, empty pieces kept.
pub open spec fn spec_split_char(s: Seq<char>, c: char) -> Seq<Seq<char>>
    decreases s.len(),
{
    match spec_find_char(s, c) {
        Some(i) => if 0 <= i < s.len() {
            seq![s.take(i)] + spec_split_char(s.skip(i + 1), c)
        } else {
            seq![s]
        },
        None => seq![s],
    }
}

/// Split `s` at every occurrence of `c`.
pub fn split_char_str(s: &str, c: char) -> (r: Vec<String>)
    ensures
        seq_views(r@) == spec_split_char(s@, c),
    decreases s@.len(),
{
    let ns = s.unicode_len();
    match find_char(s, c) {
        Some(i) => {
            let head = String::from_str(s.substring_char(0, i));
            let tail = s.substring_char(i + 1, ns);
            proof {
                assert(tail@ =~= s@.skip(i as int + 1));
            }
            let mut rest = split_char_str(tail, c);
            let mut out: Vec<String> = Vec::new();
            out.push(head);
            let ghost head_view = seq_views(out@);
            out.append(&mut rest);
            proof {
                assert(head_view =~= seq![s@.take(i as int)]);
                assert(seq_views(out@) =~= head_view + spec_split_char(s@.skip(i as int + 1), c));
            }
            out
        },
        None => {
            let mut out: Vec<String> = Vec::new();
            out.push(s.to_owned());
            proof {
                assert(seq_views(out@) =~= seq![s@]);
            }
            out
        },
    }
}

// ============================================================================
// Trimming
// ============================================================================

/// `s` without leading whitespace.
pub open spec fn spec_trim_start(s: Seq<char>) -> Seq<char>
    decreases s.len(),
{
    if s.len() > 0 && spec_is_space(s[0]) {
        spec_trim_start(s.skip(1))
    } else {
        s
    }
}

/// `s` without trailing whitespace.
pub open spec fn spec_trim_end(s: Seq<char>) -> Seq<char>
    decreases s.len(),
{
    if s.len() > 0 && spec_is_space(s.last()) {
        spec_trim_end(s.take(s.len() - 1))
    } else {
        s
    }
}

/// `s` without leading and trailing whitespace.
pub open spec fn spec_trim(s: Seq<char>) -> Seq<char> {
    spec_trim_end(spec_trim_start(s))
}

/// Trim ASCII whitespace from both ends.
pub fn trim(s: &str) -> (r: &str)
    ensures
        r@ == spec_trim(s@),
{
    let ns = s.unicode_len();
    proof {
        assert(s@.skip(0) =~= s@);
    }
    let mut a: usize = 0;
    while a < ns && is_space_char(s.get_char(a))
        invariant
            ns == s@.len(),
            a <= ns,
            spec_trim_start(s@) == spec_trim_start(s@.skip(a as int)),
        decreases ns - a,
    {
        proof {
            assert(s@.skip(a as int)[0] == s@[a as int]);
            assert(s@.skip(a as int).skip(1) =~= s@.skip(a as int + 1));
        }
        a += 1;
    }
    proof {
        if a < ns {
            assert(s@.skip(a as int)[0] == s@[a as int]);
        }
        assert(spec_trim_start(s@) == s@.skip(a as int));
    }
    let mut b: usize = ns;
    while b > a && is_space_char(s.get_char(b - 1))
        invariant
            ns == s@.len(),
            a <= b <= ns,
            spec_trim_start(s@) == s@.skip(a as int),
            spec_trim_end(s@.subrange(a as int, ns as int)) == spec_trim_end(
                s@.subrange(a as int, b as int),
            ),
        decreases b,
    {
        proof {
            let sub = s@.subrange(a as int, b as int);
            assert(sub.last() == s@[b - 1]);
            assert(sub.take(sub.len() - 1) =~= s@.subrange(a as int, b as int - 1));
        }
        b -= 1;
    }
    proof {
        let sub = s@.subrange(a as int, b as int);
        if b > a {
            assert(sub.last() == s@[b - 1]);
        }
        assert(spec_trim_end(sub) == sub);
        assert(s@.skip(a as int) =~= s@.subrange(a as int, ns as int));
    }
    s.substring_char(a, b)
}

// ============================================================================
// Case-insensitive comparison (ASCII)
// ============================================================================

/// Code point of `c` with ASCII uppercase letters folded to lowercase.
pub open spec fn spec_char_lower(c: char) -> int {
    if 'A' <= c && c <= 'Z' {
        c as int + 32
    } else {
        c as int
    }
}

/// Equality up to ASCII case.
pub open spec fn spec_eq_ignore_case(a: Seq<char>, b: Seq<char>) -> bool {
    a.len() == b.len() && forall|i: int|
        0 <= i < a.len() ==> spec_char_lower(a[i]) == spec_char_lower(b[i])
}

/// Compare two strings, ignoring ASCII case.
pub fn eq_ignore_ascii_case(a: &str, b: &str) -> (r: bool)
    ensures
        r == spec_eq_ignore_case(a@, b@),
{
    let na = a.unicode_len();
    let nb = b.unicode_len();
    if na != nb {
        return false;
    }
    let mut i: usize = 0;
    while i < na
        invariant
            na == a@.len(),
            na == b@.len(),
            i <= na,
            forall|k: int| 0 <= k < i ==> spec_char_lower(a@[k]) == spec_char_lower(b@[k]),
        decreases na - i,
    {
        let ca = a.get_char(i);
        let cb = b.get_char(i);
        let la: u32 = if 'A' <= ca && ca <= 'Z' {
            ca as u32 + 32
        } else {
            ca as u32
        };
        let lb: u32 = if 'A' <= cb && cb <= 'Z' {
            cb as u32 + 32
        } else {
            cb as u32
        };
        if la != lb {
            return false;
        }
        i += 1;
    }
    true
}

// ============================================================================
// Lexicographic order
// ============================================================================

/// Lexicographic order on character sequences, by code point.
pub open spec fn spec_str_le(a: Seq<char>, b: Seq<char>) -> bool
    decreases a.len(),
{
    if a.len() == 0 {
        true
    } else if b.len() == 0 {
        false
    } else if (a[0] as int) < (b[0] as int) {
        true
    } else if (a[0] as int) > (b[0] as int) {
        false
    } else {
        spec_str_le(a.skip(1), b.skip(1))
    }
}

/// The order is total.
pub proof fn lemma_str_le_total(a: Seq<char>, b: Seq<char>)
    ensures
        spec_str_le(a, b) || spec_str_le(b, a),
    decreases a.len(),
{
    if a.len() > 0 && b.len() > 0 && a[0] == b[0] {
        lemma_str_le_total(a.skip(1), b.skip(1));
    }
}

/// The order is transitive.
pub proof fn lemma_str_le_trans(a: Seq<char>, b: Seq<char>, c: Seq<char>)
    requires
        spec_str_le(a, b),
        spec_str_le(b, c),
    ensures
        spec_str_le(a, c),
    decreases a.len(),
{
    if a.len() > 0 && b.len() > 0 && c.len() > 0 && a[0] == b[0] && b[0] == c[0] {
        lemma_str_le_trans(a.skip(1), b.skip(1), c.skip(1));
    }
}

/// Compare two strings in lexicographic order.
pub fn str_le(a: &str, b: &str) -> (r: bool)
    ensures
        r == spec_str_le(a@, b@),
{
    let na = a.unicode_len();
    let nb = b.unicode_len();
    proof {
        assert(a@.skip(0) =~= a@);
        assert(b@.skip(0) =~= b@);
    }
    let mut i: usize = 0;
    loop
        invariant
            na == a@.len(),
            nb == b@.len(),
            i <= na,
            i <= nb,
            spec_str_le(a@, b@) == spec_str_le(a@.skip(i as int), b@.skip(i as int)),
        decreases na - i,
    {
        proof {
            let ra = a@.skip(i as int);
            let rb = b@.skip(i as int);
            if i < na && i < nb {
                assert(ra[0] == a@[i as int]);
                assert(rb[0] == b@[i as int]);
                assert(ra.skip(1) =~= a@.skip(i as int + 1));
                assert(rb.skip(1) =~= b@.skip(i as int + 1));
            }
        }
        if i >= na {
            return true;
        }
        if i >= nb {
            return false;
        }
        let ca = a.get_char(i);
        let cb = b.get_char(i);
        if (ca as u32) < (cb as u32) {
            return true;
        }
        if (ca as u32) > (cb as u32) {
            return false;
        }
        i += 1;
    }
}

// ============================================================================
// Replacement
// ============================================================================

/// `s` with every occurrence of `pat` replaced by `rep`, leftmost first,
/// non-overlapping, the replacement not rescanned. Empty patterns leave
/// `s` unchanged.
pub open spec fn spec_replace(s: Seq<char>, pat: Seq<char>, rep: Seq<char>) -> Seq<char>
    decreases s.len(),
{
    if pat.len() == 0 || s.len() < pat.len() {
        s
    } else if s.take(pat.len() as int) == pat {
        rep + spec_replace(s.skip(pat.len() as int), pat, rep)
    } else {
        seq![s[0]] + spec_replace(s.skip(1), pat, rep)
    }
}

/// Replace every occurrence of `pat` in `s` by `rep`.
pub fn replace_str(s: &str, pat: &str, rep: &str) -> (r: String)
    ensures
        r@ == spec_replace(s@, pat@, rep@),
{
    let ns = s.unicode_len();
    let np = pat.unicode_len();
    if np == 0 {
        return s.to_owned();
    }
    let mut out = String::new();
    proof {
        assert(s@.skip(0) =~= s@);
        assert(out@ + spec_replace(s@, pat@, rep@) =~= spec_replace(s@, pat@, rep@));
    }
    let mut i: usize = 0;
    while i < ns
        invariant
            ns == s@.len(),
            np == pat@.len(),
            np > 0,
            i <= ns,
            spec_replace(s@, pat@, rep@) == out@ + spec_replace(s@.skip(i as int), pat@, rep@),
        decreases ns - i,
    {
        let ghost rest = s@.skip(i as int);
        if ns - i >= np && match_at(s, pat, i) {
            proof {
                assert(rest.take(np as int) =~= s@.subrange(i as int, i + np as int));
                assert(rest.skip(np as int) =~= s@.skip(i + np as int));
            }
            out.append(rep);
            i += np;
        } else {
            proof {
                if i + np <= ns {
                    assert(rest.take(np as int) =~= s@.subrange(i as int, i + np as int));
                } else {
                    assert(rest.len() < np);
                }
                assert(rest[0] == s@[i as int]);
                assert(rest.skip(1) =~= s@.skip(i as int + 1));
                assert(s@.subrange(i as int, i as int + 1) =~= seq![s@[i as int]]);
            }
            out.append(s.substring_char(i, i + 1));
            i += 1;
        }
    }
    proof {
        assert(s@.skip(ns as int) =~= Seq::<char>::empty());
        assert(spec_replace(Seq::<char>::empty(), pat@, rep@) == Seq::<char>::empty());
        assert(out@ + Seq::<char>::empty() =~= out@);
    }
    out
}

// ============================================================================
// Decimal numbers
// ============================================================================

/// Value of a digit sequence read as a decimal number.
pub open spec fn spec_dec_value(s: Seq<char>) -> int
    decreases s.len(),
{
    if s.len() == 0 {
        0
    } else {
        spec_dec_value(s.take(s.len() - 1)) * 10 + spec_digit_val(s.last())
    }
}

/// Every character is a decimal digit.
pub open spec fn spec_all_digits(s: Seq<char>) -> bool {
    forall|i: int| 0 <= i < s.len() ==> spec_is_digit(s[i])
}

/// A digit-only, non-empty string denotes a value that only grows as more
/// digits follow.
proof fn lemma_dec_value_prefix_le(s: Seq<char>, i: int)
    requires
        spec_all_digits(s),
        0 <= i <= s.len(),
    ensures
        spec_dec_value(s.take(i)) <= spec_dec_value(s),
    decreases s.len() - i,
{
    if i < s.len() {
        let t = s.take(i + 1);
        assert(t.take(t.len() - 1) =~= s.take(i));
        assert(t.last() == s[i]);
        assert(spec_dec_value(s.take(i + 1)) == spec_dec_value(s.take(i)) * 10 + spec_digit_val(
            s[i],
        ));
        assert(spec_dec_value(s.take(i)) >= 0) by {
            lemma_dec_value_nonneg(s.take(i));
        }
        assert(spec_dec_value(s.take(i)) <= spec_dec_value(s.take(i + 1)));
        lemma_dec_value_prefix_le(s, i + 1);
        assert(s.take(s.len() as int) =~= s);
    } else {
        assert(s.take(i) =~= s);
    }
}

/// Digit strings denote non-negative values.
proof fn lemma_dec_value_nonneg(s: Seq<char>)
    requires
        spec_all_digits(s),
    ensures
        spec_dec_value(s) >= 0,
    decreases s.len(),
{
    if s.len() > 0 {
        assert(spec_all_digits(s.take(s.len() - 1)));
        lemma_dec_value_nonneg(s.take(s.len() - 1));
    }
}

/// Parse a decimal number no greater than `max`. Returns the value exactly
/// when the string is non-empty, all digits, and in range.
pub fn parse_u64_max(s: &str, max: u64) -> (r: Option<u64>)
    ensures
        (r is Some) == (s@.len() > 0 && spec_all_digits(s@) && spec_dec_value(s@) <= max),
        r matches Some(v) ==> v == spec_dec_value(s@),
{
    let ns = s.unicode_len();
    if ns == 0 {
        return None;
    }
    let mut acc: u64 = 0;
    let mut i: usize = 0;
    while i < ns
        invariant
            ns == s@.len(),
            i <= ns,
            spec_all_digits(s@.take(i as int)),
            acc == spec_dec_value(s@.take(i as int)),
            acc <= max,
        decreases ns - i,
    {
        let c = s.get_char(i);
        if !is_digit_char(c) {
            return None;
        }
        let d: u64 = (c as u32 - 48) as u64;
        let wide: u128 = (acc as u128) * 10 + (d as u128);
        proof {
            let t = s@.take(i as int + 1);
            assert(t.take(t.len() - 1) =~= s@.take(i as int));
            assert(t.last() == s@[i as int]);
        }
        if wide > max as u128 {
            proof {
                if spec_all_digits(s@) && spec_dec_value(s@) <= max {
                    lemma_dec_value_prefix_le(s@, i as int + 1);
                }
            }
            return None;
        }
        acc = (wide as u64);
        i += 1;
    }
    proof {
        assert(s@.take(ns as int) =~= s@);
    }
    Some(acc)
}

/// Parse a `u16` (used for port numbers).
pub fn parse_u16(s: &str) -> (r: Option<u16>)
    ensures
        (r is Some) == (s@.len() > 0 && spec_all_digits(s@) && spec_dec_value(s@) <= u16::MAX),
        r matches Some(v) ==> v == spec_dec_value(s@),
{
    match parse_u64_max(s, 65535) {
        Some(v) => Some(v as u16),
        None => None,
    }
}

/// Parse a `u32` (used for uid/gid strings).
pub fn parse_u32(s: &str) -> (r: Option<u32>)
    ensures
        (r is Some) == (s@.len() > 0 && spec_all_digits(s@) && spec_dec_value(s@) <= u32::MAX),
        r matches Some(v) ==> v == spec_dec_value(s@),
{
    match parse_u64_max(s, 0xFFFF_FFFF) {
        Some(v) => Some(v as u32),
        None => None,
    }
}

/// Decimal rendering of a non-negative number.
pub open spec fn spec_dec_str(n: int) -> Seq<char>
    decreases n,
{
    if n <= 0 {
        seq!['0']
    } else if n < 10 {
        seq![spec_digit_char(n)]
    } else {
        spec_dec_str(n / 10) + seq![spec_digit_char(n % 10)]
    }
}

/// Decimal rendering of a signed number.
pub open spec fn spec_int_str(n: int) -> Seq<char> {
    if n < 0 {
        seq!['-'] + spec_dec_str(-n)
    } else {
        spec_dec_str(n)
    }
}

/// The one-character string of a digit value.
fn digit_str(d: u64) -> (r: &'static str)
    requires
        d < 10,
    ensures
        r@ =~= seq![spec_digit_char(d as int)],
{
    proof {
        reveal_strlit("0");
        reveal_strlit("1");
        reveal_strlit("2");
        reveal_strlit("3");
        reveal_strlit("4");
        reveal_strlit("5");
        reveal_strlit("6");
        reveal_strlit("7");
        reveal_strlit("8");
        reveal_strlit("9");
    }
    match d {
        0 => "0",
        1 => "1",
        2 => "2",
        3 => "3",
        4 => "4",
        5 => "5",
        6 => "6",
        7 => "7",
        8 => "8",
        _ => "9",
    }
}

/// Render a `u64` in decimal.
pub fn u64_to_string(n: u64) -> (r: String)
    ensures
        r@ == spec_dec_str(n as int),
    decreases n,
{
    if n < 10 {
        String::from_str(digit_str(n))
    } else {
        let front = u64_to_string(n / 10);
        proof {
            assert(n / 10 < n) by (nonlinear_arith)
                requires
                    n >= 10,
            ;
            assert(n / 10 > 0) by (nonlinear_arith)
                requires
                    n >= 10,
            ;
        }
        front.concat(digit_str(n % 10))
    }
}

// ============================================================================
// Sequences of strings
// ============================================================================

/// The character sequences of a sequence of strings.
pub open spec fn seq_views(s: Seq<String>) -> Seq<Seq<char>> {
    s.map_values(|x: String| x@)
}

/// Sort strings lexicographically. The result holds the same strings
/// (as a multiset of character sequences), in non-decreasing order.
pub fn sort_strings(v: Vec<String>) -> (r: Vec<String>)
    ensures
        seq_views(r@).to_multiset() == seq_views(v@).to_multiset(),
        forall|i: int, j: int|
            0 <= i < j < r@.len() ==> spec_str_le(#[trigger] r@[i]@, #[trigger] r@[j]@),
{
    broadcast use vstd::seq_lib::group_to_multiset_ensures;

    let n = v.len();
    let mut src = v;
    let mut out: Vec<String> = Vec::new();
    proof {
        assert(seq_views(out@).to_multiset() =~= seq_views(src@.take(0)).to_multiset());
    }
    let mut idx: usize = 0;
    while idx < n
        invariant
            n == src@.len(),
            idx <= n,
            seq_views(out@).to_multiset() == seq_views(src@.take(idx as int)).to_multiset(),
            forall|i: int, j: int|
                0 <= i < j < out@.len() ==> spec_str_le(#[trigger] out@[i]@, #[trigger] out@[j]@),
        decreases n - idx,
    {
        let x: String = src[idx].clone();
        let ghost xv = x@;
        let m = out.len();
        let mut p: usize = 0;
        loop
            invariant
                m == out@.len(),
                p <= m,
                xv == x@,
                forall|k: int| 0 <= k < p ==> spec_str_le(#[trigger] out@[k]@, xv),
                forall|i: int, j: int|
                    0 <= i < j < out@.len() ==> spec_str_le(
                        #[trigger] out@[i]@,
                        #[trigger] out@[j]@,
                    ),
            ensures
                p <= m,
                forall|k: int| 0 <= k < p ==> spec_str_le(#[trigger] out@[k]@, xv),
                p < m ==> spec_str_le(xv, out@[p as int]@),
            decreases m - p,
        {
            if p >= m {
                break ;
            }
            if !str_le(out[p].as_str(), x.as_str()) {
                proof {
                    lemma_str_le_total(out@[p as int]@, xv);
                }
                break ;
            }
            p += 1;
        }
        let ghost old_out = out@;
        out.insert(p, x);
        proof {
            // sortedness of the extended vector
            assert forall|i: int, j: int| 0 <= i < j < out@.len() implies spec_str_le(
                #[trigger] out@[i]@,
                #[trigger] out@[j]@,
            ) by {
                let pi = p as int;
                if j < pi {
                    assert(out@[i]@ == old_out[i]@ && out@[j]@ == old_out[j]@);
                } else if j == pi {
                    assert(out@[i]@ == old_out[i]@ && out@[j]@ == xv);
                } else if i < pi {
                    // then i < j - 1, both fall in the old vector
                    assert(out@[i]@ == old_out[i]@ && out@[j]@ == old_out[j - 1]@);
                } else if i == pi {
                    assert(out@[i]@ == xv && out@[j]@ == old_out[j - 1]@);
                    assert(spec_str_le(xv, old_out[pi]@));
                    if j - 1 > pi {
                        lemma_str_le_trans(xv, old_out[pi]@, old_out[j - 1]@);
                    }
                } else {
                    assert(out@[i]@ == old_out[i - 1]@ && out@[j]@ == old_out[j - 1]@);
                }
            }
            // multiset equality
            let pre = src@.take(idx as int);
            let cur = src@.take(idx as int + 1);
            assert(cur.drop_last() =~= pre);
            assert(cur.last() == src@[idx as int]);
            assert(seq_views(cur) =~= seq_views(pre).push(xv));
            lemma_seq_views_insert_multiset(old_out, p as int, x);
            vstd::seq_lib::to_multiset_build::<Seq<char>>(seq_views(pre), xv);
            assert(seq_views(cur).to_multiset() == seq_views(pre).push(xv).to_multiset());
            assert(seq_views(out@).to_multiset() =~= seq_views(cur).to_multiset());
        }
        idx += 1;
    }
    proof {
        assert(src@.take(n as int) =~= src@);
    }
    out
}

/// Inserting into a string sequence inserts its view into the view multiset.
proof fn lemma_seq_views_insert_multiset(s: Seq<String>, p: int, x: String)
    requires
        0 <= p <= s.len(),
    ensures
        seq_views(s.insert(p, x)).to_multiset() == seq_views(s).to_multiset().insert(x@),
{
    broadcast use vstd::seq_lib::group_to_multiset_ensures;

    let left = s.take(p);
    let right = s.skip(p);
    assert(s.insert(p, x) =~= left.push(x) + right);
    assert(s =~= left + right);
    assert(seq_views(left.push(x) + right) =~= seq_views(left).push(x@) + seq_views(right));
    assert(seq_views(left + right) =~= seq_views(left) + seq_views(right));
    vstd::seq_lib::lemma_multiset_commutative(seq_views(left).push(x@), seq_views(right));
    vstd::seq_lib::lemma_multiset_commutative(seq_views(left), seq_views(right));
    assert(seq_views(left).push(x@).to_multiset() =~= seq_views(left).to_multiset().insert(x@));
    assert(seq_views(s.insert(p, x)).to_multiset() =~= seq_views(s).to_multiset().insert(x@));
}

/// Render an `i64` in decimal, with a leading minus where negative.
pub fn i64_to_string(n: i64) -> (r: String)
    ensures
        r@ == spec_int_str(n as int),
{
    if n >= 0 {
        u64_to_string(n as u64)
    } else {
        let mag: u64 = ((-(n + 1)) as u64) + 1;
        proof {
            assert(mag as int == -(n as int));
            reveal_strlit("-");
        }
        let mut out = String::from_str("-");
        let digits = u64_to_string(mag);
        out.append(digits.as_str());
        proof {
            assert(out@ =~= seq!['-'] + spec_dec_str(-(n as int)));
        }
        out
    }
}

} // verus!
