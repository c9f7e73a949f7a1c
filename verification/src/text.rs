use vstd::prelude::*;
use vstd::string::StrSliceExecFns;

verus! {

/// `s` without every copy of `prefix` that it starts with.
pub open spec fn strip_repeated(s: Seq<char>, prefix: Seq<char>) -> Seq<char>
    decreases s.len(),
{
    if prefix.len() > 0 && prefix.is_prefix_of(s) {
        strip_repeated(s.skip(prefix.len() as int), prefix)
    } else {
        s
    }
}

/// `s` without the underscores that it starts with.
pub open spec fn strip_underscores(s: Seq<char>) -> Seq<char>
    decreases s.len(),
{
    if s.len() > 0 && s[0] == '_' {
        strip_underscores(s.skip(1))
    } else {
        s
    }
}

/// Whether `s` starts with `prefix`.
pub fn starts_with(s: &str, prefix: &str) -> (b: bool)
    ensures
        b == prefix@.is_prefix_of(s@),
{
    let n = prefix.unicode_len();
    if n > s.unicode_len() {
        return false;
    }
    let mut i: usize = 0;
    while i < n
        invariant
            i <= n,
            n == prefix@.len(),
            n <= s@.len(),
            forall|j: int| 0 <= j < i ==> s@[j] == prefix@[j],
        decreases n - i,
    {
        if s.get_char(i) != prefix.get_char(i) {
            assert(s@.subrange(0, n as int)[i as int] != prefix@[i as int]);
            return false;
        }
        i += 1;
    }
    assert(s@.subrange(0, n as int) =~= prefix@);
    true
}

/// `s` without its first `n` characters.
pub fn skip_chars(s: &str, n: usize) -> (res: &str)
    requires
        n <= s@.len(),
    ensures
        res@ == s@.skip(n as int),
{
    s.substring_char(n, s.unicode_len())
}

/// `s` without every copy of `prefix` that it starts with.
pub fn trim_start_matches<'a>(s: &'a str, prefix: &str) -> (res: &'a str)
    ensures
        res@ == strip_repeated(s@, prefix@),
{
    let n = prefix.unicode_len();
    let mut rest = s;
    if n == 0 {
        return rest;
    }
    while starts_with(rest, prefix)
        invariant
            n == prefix@.len(),
            n > 0,
            strip_repeated(s@, prefix@) == strip_repeated(rest@, prefix@),
        decreases rest@.len(),
    {
        rest = skip_chars(rest, n);
    }
    rest
}

/// `s` without the underscores that it starts with.
pub fn trim_underscores(s: &str) -> (res: &str)
    ensures
        res@ == strip_underscores(s@),
{
    let mut rest = s;
    while rest.unicode_len() > 0 && rest.get_char(0) == '_'
        invariant
            strip_underscores(s@) == strip_underscores(rest@),
        decreases rest@.len(),
    {
        rest = skip_chars(rest, 1);
    }
    rest
}

/// Whether `c` is white space.
pub open spec fn is_space(c: char) -> bool {
    c == '\u{0009}'
        || c == '\u{000A}'
        || c == '\u{000B}'
        || c == '\u{000C}'
        || c == '\u{000D}'
        || c == '\u{0020}'
        || c == '\u{0085}'
        || c == '\u{00A0}'
        || c == '\u{1680}'
        || c == '\u{2000}'
        || c == '\u{2001}'
        || c == '\u{2002}'
        || c == '\u{2003}'
        || c == '\u{2004}'
        || c == '\u{2005}'
        || c == '\u{2006}'
        || c == '\u{2007}'
        || c == '\u{2008}'
        || c == '\u{2009}'
        || c == '\u{200A}'
        || c == '\u{2028}'
        || c == '\u{2029}'
        || c == '\u{202F}'
        || c == '\u{205F}'
        || c == '\u{3000}'
}

/// Whether `c` is white space.
pub fn is_space_char(c: char) -> (b: bool)
    ensures
        b == is_space(c),
{
    c == '\u{0009}'
        || c == '\u{000A}'
        || c == '\u{000B}'
        || c == '\u{000C}'
        || c == '\u{000D}'
        || c == '\u{0020}'
        || c == '\u{0085}'
        || c == '\u{00A0}'
        || c == '\u{1680}'
        || c == '\u{2000}'
        || c == '\u{2001}'
        || c == '\u{2002}'
        || c == '\u{2003}'
        || c == '\u{2004}'
        || c == '\u{2005}'
        || c == '\u{2006}'
        || c == '\u{2007}'
        || c == '\u{2008}'
        || c == '\u{2009}'
        || c == '\u{200A}'
        || c == '\u{2028}'
        || c == '\u{2029}'
        || c == '\u{202F}'
        || c == '\u{205F}'
        || c == '\u{3000}'
}

/// The first place at or after `from` where `s` holds something other than
/// white space; the length of `s` where there is none.
pub open spec fn lead(s: Seq<char>, from: int) -> int
    decreases s.len() - from,
{
    if from < 0 || from >= s.len() {
        s.len() as int
    } else if is_space(s[from]) {
        lead(s, from + 1)
    } else {
        from
    }
}

/// The place after the last character of `s` before `upto` that is no white
/// space, and `low` where there is none after `low`.
pub open spec fn tail(s: Seq<char>, low: int, upto: int) -> int
    decreases upto,
{
    if upto <= low || upto <= 0 || upto > s.len() {
        low
    } else if is_space(s[upto - 1]) {
        tail(s, low, upto - 1)
    } else {
        upto
    }
}

/// `s` without the white space at its start and at its end.
pub open spec fn trimmed(s: Seq<char>) -> Seq<char> {
    s.subrange(lead(s, 0), tail(s, lead(s, 0), s.len() as int))
}

/// The first place at or after `from` where `s` holds a semicolon; the
/// length of `s` where there is none.
pub open spec fn next_semicolon(s: Seq<char>, from: int) -> int
    decreases s.len() - from,
{
    if from < 0 || from >= s.len() {
        s.len() as int
    } else if s[from] == ';' {
        from
    } else {
        next_semicolon(s, from + 1)
    }
}

/// The parts of `s[from..]` between semicolons, each without the white
/// space around it, after `acc`. A text without a semicolon is one part.
pub open spec fn split_trimmed(s: Seq<char>, from: int, acc: Seq<Seq<char>>) -> Seq<Seq<char>>
    decreases s.len() - from,
{
    if from < 0 || from > s.len() {
        acc
    } else if next_semicolon(s, from) < from || next_semicolon(s, from) >= s.len() {
        acc.push(trimmed(s.subrange(from, s.len() as int)))
    } else {
        split_trimmed(
            s,
            next_semicolon(s, from) + 1,
            acc.push(trimmed(s.subrange(from, next_semicolon(s, from)))),
        )
    }
}

proof fn lemma_lead_in_range(s: Seq<char>, from: int)
    requires
        0 <= from <= s.len(),
    ensures
        from <= lead(s, from) <= s.len(),
    decreases s.len() - from,
{
    if from < s.len() && is_space(s[from]) {
        lemma_lead_in_range(s, from + 1);
    }
}

proof fn lemma_next_semicolon_in_range(s: Seq<char>, from: int)
    requires
        0 <= from <= s.len(),
    ensures
        from <= next_semicolon(s, from) <= s.len(),
    decreases s.len() - from,
{
    if from < s.len() && s[from] != ';' {
        lemma_next_semicolon_in_range(s, from + 1);
    }
}

/// `s` without the white space at its start and at its end.
pub fn trim(s: &str) -> (res: &str)
    ensures
        res@ == trimmed(s@),
{
    let n = s.unicode_len();
    let mut a: usize = 0;
    while a < n && is_space_char(s.get_char(a))
        invariant
            a <= n,
            n == s@.len(),
            lead(s@, 0) == lead(s@, a as int),
        decreases n - a,
    {
        a += 1;
    }
    let mut b: usize = n;
    while b > a && is_space_char(s.get_char(b - 1))
        invariant
            a <= b <= n,
            n == s@.len(),
            tail(s@, a as int, n as int) == tail(s@, a as int, b as int),
        decreases b,
    {
        b -= 1;
    }
    s.substring_char(a, b)
}

/// The place of the first semicolon of `s` at or after `from`.
pub fn find_semicolon(s: &str, from: usize) -> (at: usize)
    requires
        from <= s@.len(),
    ensures
        at == next_semicolon(s@, from as int),
        from <= at <= s@.len(),
{
    let n = s.unicode_len();
    let mut at: usize = from;
    proof {
        lemma_next_semicolon_in_range(s@, from as int);
    }
    while at < n && s.get_char(at) != ';'
        invariant
            from <= at <= n,
            n == s@.len(),
            next_semicolon(s@, from as int) == next_semicolon(s@, at as int),
        decreases n - at,
    {
        at += 1;
    }
    at
}

/// The parts of `s` between semicolons, each without the white space
/// around it.
pub fn split_at_semicolons(s: &str) -> (res: Vec<String>)
    ensures
        crate::model::views(res@) == split_trimmed(s@, 0, Seq::empty()),
{
    let n = s.unicode_len();
    let mut out: Vec<String> = Vec::new();
    let mut from: usize = 0;
    assert(crate::model::views(out@) =~= Seq::empty());
    loop
        invariant_except_break
            split_trimmed(s@, 0, Seq::empty()) == split_trimmed(
                s@,
                from as int,
                crate::model::views(out@),
            ),
        invariant
            from <= n,
            n == s@.len(),
        ensures
            crate::model::views(out@) == split_trimmed(s@, 0, Seq::empty()),
        decreases n - from,
    {
        let ghost before = crate::model::views(out@);
        let at = find_semicolon(s, from);
        let part = trim(s.substring_char(from, at));
        out.push(part.to_owned());
        assert(crate::model::views(out@) =~= before.push(part@));
        if at >= n {
            break ;
        }
        from = at + 1;
    }
    out
}

} // verus!
