//! Character-level text helpers, stated over the characters of a string.
use vstd::prelude::*;

use crate::domain::push_char;

verus! {

/// The characters of a string slice, in order.
pub fn chars_of(s: &str) -> (r: Vec<char>)
    ensures
        r@ == s@,
{
    let mut out: Vec<char> = Vec::new();
    for c in it: s.chars()
        invariant
            out@ == it.seq().take(it.index() as int),
    {
        out.push(c);
    }
    out
}

/// A string made of the given characters.
pub fn string_of(v: &[char]) -> (r: String)
    ensures
        r@ == v@,
{
    let mut out = String::new();
    let mut i: usize = 0;
    while i < v.len()
        invariant
            i <= v.len(),
            out@ == v@.subrange(0, i as int),
        decreases v.len() - i,
    {
        push_char(&mut out, v[i]);
        i = i + 1;
    }
    out
}


/// ASCII upper-case letters become lower-case; every other character stays.
pub open spec fn lower_char(c: char) -> char {
    if 'A' <= c && c <= 'Z' {
        ((c as u32) + 32) as char
    } else {
        c
    }
}

/// `str::to_ascii_lowercase`, character by character.
pub open spec fn ascii_lower(s: Seq<char>) -> Seq<char> {
    s.map_values(|c: char| lower_char(c))
}

pub fn lower_char_exec(c: char) -> (r: char)
    ensures
        r == lower_char(c),
{
    if c >= 'A' && c <= 'Z' {
        let b: u8 = c as u8;
        (b + 32) as char
    } else {
        c
    }
}

/// The characters of a slice with ASCII letters made lower-case.
pub fn to_ascii_lowercase(s: &[char]) -> (r: Vec<char>)
    ensures
        r@ == ascii_lower(s@),
{
    let mut out: Vec<char> = Vec::new();
    let mut i: usize = 0;
    while i < s.len()
        invariant
            i <= s.len(),
            out@ == ascii_lower(s@.subrange(0, i as int)),
        decreases s.len() - i,
    {
        out.push(lower_char_exec(s[i]));
        proof {
            assert(ascii_lower(s@.subrange(0, i + 1)) =~= ascii_lower(s@.subrange(0, i as int)).push(
                lower_char(s@[i as int]),
            ));
        }
        i = i + 1;
    }
    proof {
        assert(s@.subrange(0, s.len() as int) =~= s@);
    }
    out
}

/// `pat` occurs in `s` starting at position `i`.
pub open spec fn match_at(s: Seq<char>, pat: Seq<char>, i: int) -> bool {
    0 <= i && i + pat.len() <= s.len() && s.subrange(i, i + pat.len()) == pat
}

/// `pat` occurs somewhere in `s` (`str::contains`).
pub open spec fn contains_seq(s: Seq<char>, pat: Seq<char>) -> bool {
    exists|i: int| match_at(s, pat, i)
}

/// The first position at which `pat` occurs in `s` (`str::find`).
#[verifier::opaque]
pub open spec fn first_match(s: Seq<char>, pat: Seq<char>) -> Option<int> {
    if contains_seq(s, pat) {
        Some(choose|i: int| match_at(s, pat, i) && forall|j: int| 0 <= j < i ==> !match_at(s, pat, j))
    } else {
        None
    }
}

/// A match that no earlier position matches is the first match.
pub proof fn lemma_first_match_is(s: Seq<char>, pat: Seq<char>, i: int)
    requires
        match_at(s, pat, i),
        forall|j: int| 0 <= j < i ==> !match_at(s, pat, j),
    ensures
        first_match(s, pat) == Some(i),
{
    reveal(first_match);
    assert(contains_seq(s, pat));
    let k = choose|k: int| match_at(s, pat, k) && forall|j: int| 0 <= j < k ==> !match_at(s, pat, j);
    assert(match_at(s, pat, k) && forall|j: int| 0 <= j < k ==> !match_at(s, pat, j));
    if k < i {
        assert(!match_at(s, pat, k));
    }
    if i < k {
        assert(!match_at(s, pat, i));
    }
}

/// Where `pat` occurs, a first occurrence exists, and it is no later.
pub proof fn lemma_first_exists(s: Seq<char>, pat: Seq<char>, i: int)
    requires
        match_at(s, pat, i),
    ensures
        first_match(s, pat) matches Some(k) && match_at(s, pat, k) && k <= i && forall|j: int|
            0 <= j < k ==> !match_at(s, pat, j),
    decreases i,
{
    reveal(first_match);
    if exists|j: int| 0 <= j < i && match_at(s, pat, j) {
        let j = choose|j: int| 0 <= j < i && match_at(s, pat, j);
        lemma_first_exists(s, pat, j);
    } else {
        lemma_first_match_is(s, pat, i);
    }
}

/// Whether `pat` occurs in `s` at position `i`.
pub fn matches_at(s: &[char], pat: &[char], i: usize) -> (r: bool)
    ensures
        r == match_at(s@, pat@, i as int),
{
    if i > s.len() || pat.len() > s.len() - i {
        return false;
    }
    let mut k: usize = 0;
    while k < pat.len()
        invariant
            i + pat.len() <= s.len(),
            k <= pat.len(),
            forall|m: int| 0 <= m < k ==> s@[i + m] == pat@[m],
        decreases pat.len() - k,
    {
        if s[i + k] != pat[k] {
            proof {
                assert(s@.subrange(i as int, i + pat.len())[k as int] != pat@[k as int]);
            }
            return false;
        }
        k = k + 1;
    }
    proof {
        assert(s@.subrange(i as int, i + pat.len()) =~= pat@);
    }
    true
}

/// The first occurrence of `pat` in `s` at or after `from`.
pub fn find_from(s: &[char], pat: &[char], from: usize) -> (r: Option<usize>)
    requires
        from <= s.len(),
    ensures
        r == (match first_match(s@.subrange(from as int, s@.len() as int), pat@) {
            Some(i) => Some((i + from) as usize),
            None => None,
        }),
        r matches Some(i) ==> from <= i && i + pat@.len() <= s@.len(),
        first_match(s@.subrange(from as int, s@.len() as int), pat@) == (match r {
            Some(k) => Some(k - from),
            None => None::<int>,
        }),
{
    let ghost t = s@.subrange(from as int, s@.len() as int);
    if pat.len() > s.len() - from {
        proof {
            reveal(first_match);
            assert forall|j: int| !match_at(t, pat@, j) by {}
        }
        return None;
    }
    let last = s.len() - pat.len();
    let mut i: usize = from;
    while i <= last
        invariant
            from <= i,
            last == s.len() - pat.len(),
            from <= last + 1,
            t == s@.subrange(from as int, s@.len() as int),
            forall|j: int| 0 <= j < i - from ==> !match_at(t, pat@, j),
        decreases last + 1 - i,
    {
        let hit = matches_at(s, pat, i);
        proof {
            assert(t.subrange(i - from, i - from + pat@.len()) =~= s@.subrange(
                i as int,
                i + pat@.len(),
            ));
        }
        if hit {
            proof {
                lemma_first_match_is(t, pat@, i - from);
            }
            return Some(i);
        }
        if i == last {
            proof {
                reveal(first_match);
                assert forall|j: int| !match_at(t, pat@, j) by {
                    if 0 <= j <= i - from {
                    }
                }
            }
            return None;
        }
        i = i + 1;
    }
    proof {
        reveal(first_match);
        assert forall|j: int| !match_at(t, pat@, j) by {
            if 0 <= j < i - from {
            }
        }
    }
    None
}

/// Unicode `White_Space`, the characters that `str::trim` removes.
pub open spec fn is_ws(c: char) -> bool {
    ||| c == '\t' || c == '\n' || c == '\u{0B}' || c == '\u{0C}' || c == '\r' || c == ' '
    ||| c == '\u{85}' || c == '\u{A0}' || c == '\u{1680}'
    ||| ('\u{2000}' <= c && c <= '\u{200A}')
    ||| c == '\u{2028}' || c == '\u{2029}' || c == '\u{202F}' || c == '\u{205F}' || c == '\u{3000}'
}

pub fn is_ws_exec(c: char) -> (r: bool)
    ensures
        r == is_ws(c),
{
    c == '\t' || c == '\n' || c == '\u{0B}' || c == '\u{0C}' || c == '\r' || c == ' '
        || c == '\u{85}' || c == '\u{A0}' || c == '\u{1680}'
        || ('\u{2000}' <= c && c <= '\u{200A}')
        || c == '\u{2028}' || c == '\u{2029}' || c == '\u{202F}' || c == '\u{205F}' || c == '\u{3000}'
}

/// The number of leading whitespace characters.
pub open spec fn lead_ws(s: Seq<char>) -> nat
    decreases s.len(),
{
    if s.len() > 0 && is_ws(s[0]) {
        1 + lead_ws(s.drop_first())
    } else {
        0
    }
}

/// The number of trailing whitespace characters.
pub open spec fn trail_ws(s: Seq<char>) -> nat
    decreases s.len(),
{
    if s.len() > 0 && is_ws(s.last()) {
        1 + trail_ws(s.drop_last())
    } else {
        0
    }
}

/// `str::trim`: the text without leading and trailing whitespace.
pub open spec fn trim(s: Seq<char>) -> Seq<char> {
    let a = lead_ws(s);
    let rest = s.skip(a as int);
    rest.take(rest.len() - trail_ws(rest))
}

proof fn lemma_lead_ws_bound(s: Seq<char>)
    ensures
        lead_ws(s) <= s.len(),
        forall|k: int| 0 <= k < lead_ws(s) ==> is_ws(#[trigger] s[k]),
        lead_ws(s) < s.len() ==> !is_ws(s[lead_ws(s) as int]),
    decreases s.len(),
{
    if s.len() > 0 && is_ws(s[0]) {
        lemma_lead_ws_bound(s.drop_first());
        assert forall|k: int| 0 <= k < lead_ws(s) implies is_ws(#[trigger] s[k]) by {
            if k > 0 {
                assert(s[k] == s.drop_first()[k - 1]);
            }
        }
    }
}

proof fn lemma_trail_ws_bound(s: Seq<char>)
    ensures
        trail_ws(s) <= s.len(),
        forall|k: int| s.len() - trail_ws(s) <= k < s.len() ==> is_ws(#[trigger] s[k]),
        trail_ws(s) < s.len() ==> !is_ws(s[s.len() - trail_ws(s) - 1]),
    decreases s.len(),
{
    if s.len() > 0 && is_ws(s.last()) {
        lemma_trail_ws_bound(s.drop_last());
        assert forall|k: int| s.len() - trail_ws(s) <= k < s.len() implies is_ws(#[trigger] s[k]) by {
            if k < s.len() - 1 {
                assert(s[k] == s.drop_last()[k]);
            }
        }
    }
}

/// Leading whitespace count from the characters: the first `n` are
/// whitespace and the next one (if any) is not.
proof fn lemma_lead_ws_is(s: Seq<char>, n: int)
    requires
        0 <= n <= s.len(),
        forall|k: int| 0 <= k < n ==> is_ws(#[trigger] s[k]),
        n < s.len() ==> !is_ws(s[n]),
    ensures
        lead_ws(s) == n,
    decreases s.len(),
{
    if n > 0 {
        assert(is_ws(s[0]));
        assert forall|k: int| 0 <= k < n - 1 implies is_ws(#[trigger] s.drop_first()[k]) by {
            assert(s.drop_first()[k] == s[k + 1]);
        }
        if n < s.len() {
            assert(s.drop_first()[n - 1] == s[n]);
        }
        lemma_lead_ws_is(s.drop_first(), n - 1);
    }
}

proof fn lemma_trail_ws_is(s: Seq<char>, n: int)
    requires
        0 <= n <= s.len(),
        forall|k: int| s.len() - n <= k < s.len() ==> is_ws(#[trigger] s[k]),
        n < s.len() ==> !is_ws(s[s.len() - n - 1]),
    ensures
        trail_ws(s) == n,
    decreases s.len(),
{
    if n > 0 {
        assert(is_ws(s.last()));
        let d = s.drop_last();
        assert forall|k: int| d.len() - (n - 1) <= k < d.len() implies is_ws(#[trigger] d[k]) by {
            assert(d[k] == s[k]);
        }
        if n < s.len() {
            assert(d[d.len() - (n - 1) - 1] == s[s.len() - n - 1]);
        }
        lemma_trail_ws_is(d, n - 1);
    }
}

/// `n` whitespace characters, then a text that neither starts nor ends with
/// whitespace, trim to that text.
pub proof fn lemma_trim_after_ws(s: Seq<char>, n: int)
    requires
        0 <= n < s.len(),
        forall|k: int| 0 <= k < n ==> is_ws(#[trigger] s[k]),
        !is_ws(s[n]),
        !is_ws(s.last()),
    ensures
        trim(s) == s.skip(n),
{
    lemma_lead_ws_is(s, n);
    let rest = s.skip(n);
    assert(rest.last() == s.last());
    lemma_trail_ws_is(rest, 0);
    assert(rest.take(rest.len() as int) =~= rest);
}

/// The bounds `(start, end)` of `trim` of `s[lo..hi]`, as positions in `s`.
pub fn trim_bounds(s: &[char], lo: usize, hi: usize) -> (r: (usize, usize))
    requires
        lo <= hi <= s.len(),
    ensures
        lo <= r.0 <= r.1 <= hi,
        s@.subrange(r.0 as int, r.1 as int) == trim(s@.subrange(lo as int, hi as int)),
{
    let ghost t = s@.subrange(lo as int, hi as int);
    let mut a: usize = lo;
    while a < hi && is_ws_exec(s[a])
        invariant
            lo <= a <= hi <= s.len(),
            t == s@.subrange(lo as int, hi as int),
            forall|k: int| 0 <= k < a - lo ==> is_ws(#[trigger] t[k]),
        decreases hi - a,
    {
        a = a + 1;
    }
    proof {
        lemma_lead_ws_is(t, a - lo);
    }
    let ghost rest = t.skip(a - lo);
    let mut b: usize = hi;
    while b > a && is_ws_exec(s[b - 1])
        invariant
            lo <= a <= b <= hi <= s.len(),
            rest == s@.subrange(a as int, hi as int),
            forall|k: int| b - a <= k < rest.len() ==> is_ws(#[trigger] rest[k]),
        decreases b - a,
    {
        b = b - 1;
    }
    proof {
        assert(rest =~= s@.subrange(a as int, hi as int));
        lemma_trail_ws_is(rest, hi - b);
        assert(s@.subrange(a as int, b as int) =~= rest.take(rest.len() - (hi - b)));
    }
    (a, b)
}

/// `str::eq_ignore_ascii_case`.
pub open spec fn eq_ignore_ascii_case(a: Seq<char>, b: Seq<char>) -> bool {
    ascii_lower(a) == ascii_lower(b)
}

/// `str::starts_with`.
pub open spec fn starts_with(s: Seq<char>, prefix: Seq<char>) -> bool {
    prefix.len() <= s.len() && s.take(prefix.len() as int) == prefix
}

pub fn starts_with_exec(s: &[char], prefix: &[char]) -> (r: bool)
    ensures
        r == starts_with(s@, prefix@),
{
    let r = matches_at(s, prefix, 0);
    proof {
        if prefix@.len() <= s@.len() {
            assert(s@.take(prefix@.len() as int) =~= s@.subrange(0, prefix@.len() as int));
        }
    }
    r
}

/// Equality of two character slices.
pub fn chars_eq(a: &[char], b: &[char]) -> (r: bool)
    ensures
        r == (a@ == b@),
{
    if a.len() != b.len() {
        return false;
    }
    let r = matches_at(a, b, 0);
    proof {
        assert(a@.subrange(0, b@.len() as int) =~= a@);
    }
    r
}

/// Whether `pat` occurs in `s`.
pub fn contains_exec(s: &[char], pat: &[char]) -> (r: bool)
    ensures
        r == contains_seq(s@, pat@),
{
    let f = find_from(s, pat, 0);
    proof {
        reveal(first_match);
        assert(s@.subrange(0, s@.len() as int) =~= s@);
    }
    f.is_some()
}

/// Appends `src[a..b]` to `out`.
pub fn append_range(out: &mut Vec<char>, src: &[char], a: usize, b: usize)
    requires
        a <= b <= src.len(),
    ensures
        final(out)@ == old(out)@ + src@.subrange(a as int, b as int),
{
    let mut k: usize = a;
    while k < b
        invariant
            a <= k <= b <= src.len(),
            out@ == old(out)@ + src@.subrange(a as int, k as int),
        decreases b - k,
    {
        out.push(src[k]);
        proof {
            assert(src@.subrange(a as int, k + 1) =~= src@.subrange(a as int, k as int).push(src@[k as int]));
        }
        k = k + 1;
    }
}

/// Appends all of `src` to `out`.
pub fn append_all(out: &mut Vec<char>, src: &[char])
    ensures
        final(out)@ == old(out)@ + src@,
{
    append_range(out, src, 0, src.len());
    proof {
        assert(src@.subrange(0, src@.len() as int) =~= src@);
    }
}

/// A copy of `src[a..b]`.
pub fn sub_vec(src: &[char], a: usize, b: usize) -> (r: Vec<char>)
    requires
        a <= b <= src.len(),
    ensures
        r@ == src@.subrange(a as int, b as int),
{
    let mut out: Vec<char> = Vec::new();
    append_range(&mut out, src, a, b);
    proof {
        assert(out@ =~= src@.subrange(a as int, b as int));
    }
    out
}

/// The order of `str`: lexicographic by character (which is the order of
/// the UTF-8 bytes).
pub open spec fn seq_lt(a: Seq<char>, b: Seq<char>) -> bool
    decreases a.len(),
{
    if b.len() == 0 {
        false
    } else if a.len() == 0 {
        true
    } else if a[0] != b[0] {
        (a[0] as int) < (b[0] as int)
    } else {
        seq_lt(a.drop_first(), b.drop_first())
    }
}

pub proof fn lemma_seq_lt_irreflexive(a: Seq<char>)
    ensures
        !seq_lt(a, a),
    decreases a.len(),
{
    if a.len() > 0 {
        lemma_seq_lt_irreflexive(a.drop_first());
    }
}

pub proof fn lemma_seq_lt_total(a: Seq<char>, b: Seq<char>)
    ensures
        a != b ==> seq_lt(a, b) || seq_lt(b, a),
        !(seq_lt(a, b) && seq_lt(b, a)),
    decreases a.len(),
{
    if a.len() > 0 && b.len() > 0 {
        if a[0] == b[0] {
            lemma_seq_lt_total(a.drop_first(), b.drop_first());
            if a != b {
                assert(a.drop_first() != b.drop_first()) by {
                    if a.drop_first() == b.drop_first() {
                        assert(a =~= seq![a[0]] + a.drop_first());
                        assert(b =~= seq![b[0]] + b.drop_first());
                    }
                }
            }
        } else {
            assert((a[0] as int) != (b[0] as int));
        }
    } else if a.len() == 0 && b.len() == 0 {
        assert(a =~= b);
    }
}

pub proof fn lemma_seq_lt_transitive(a: Seq<char>, b: Seq<char>, c: Seq<char>)
    requires
        seq_lt(a, b),
        seq_lt(b, c),
    ensures
        seq_lt(a, c),
    decreases a.len(),
{
    if a.len() > 0 && b.len() > 0 && c.len() > 0 {
        if a[0] == b[0] && b[0] == c[0] {
            lemma_seq_lt_transitive(a.drop_first(), b.drop_first(), c.drop_first());
        }
    }
}

/// The result of comparing two names.
#[derive(Debug, Clone, Copy, PartialEq, Eq, Structural)]
pub enum NameOrder {
    Before,
    Same,
    After,
}

/// Compares two character sequences in the order of `str`.
pub fn compare_chars(a: &[char], b: &[char]) -> (r: NameOrder)
    ensures
        r == NameOrder::Before <==> seq_lt(a@, b@),
        r == NameOrder::Same <==> a@ == b@,
        r == NameOrder::After <==> seq_lt(b@, a@),
{
    let mut i: usize = 0;
    proof {
        assert(a@.skip(0) =~= a@);
        assert(b@.skip(0) =~= b@);
    }
    while i < a.len() && i < b.len()
        invariant
            i <= a.len(),
            i <= b.len(),
            a@.take(i as int) == b@.take(i as int),
            seq_lt(a@, b@) == seq_lt(a@.skip(i as int), b@.skip(i as int)),
            seq_lt(b@, a@) == seq_lt(b@.skip(i as int), a@.skip(i as int)),
        decreases a.len() - i,
    {
        let x = a[i];
        let y = b[i];
        if x != y {
            proof {
                assert(a@.skip(i as int)[0] == x);
                assert(b@.skip(i as int)[0] == y);
                assert((x as int) != (y as int));
                if a@ == b@ {
                    assert(a@[i as int] == b@[i as int]);
                }
            }
            if x < y {
                return NameOrder::Before;
            } else {
                return NameOrder::After;
            }
        }
        proof {
            assert(a@.skip(i as int).drop_first() =~= a@.skip(i + 1));
            assert(b@.skip(i as int).drop_first() =~= b@.skip(i + 1));
            assert(a@.take(i + 1) =~= a@.take(i as int).push(x));
            assert(b@.take(i + 1) =~= b@.take(i as int).push(y));
        }
        i = i + 1;
    }
    proof {
        if a.len() == b.len() {
            assert(a@ =~= a@.take(i as int));
            assert(b@ =~= b@.take(i as int));
        } else if a@ == b@ {
            assert(a@.len() == b@.len());
        }
    }
    if a.len() == b.len() {
        NameOrder::Same
    } else if a.len() < b.len() {
        NameOrder::Before
    } else {
        NameOrder::After
    }
}

/// ASCII lower-case letters become upper-case; every other character stays.
pub open spec fn upper_char(c: char) -> char {
    if 'a' <= c && c <= 'z' {
        ((c as u32) - 32) as char
    } else {
        c
    }
}

/// `str::to_ascii_uppercase`, character by character.
pub open spec fn ascii_upper(s: Seq<char>) -> Seq<char> {
    s.map_values(|c: char| upper_char(c))
}

pub fn to_ascii_uppercase(s: &[char]) -> (r: Vec<char>)
    ensures
        r@ == ascii_upper(s@),
{
    let mut out: Vec<char> = Vec::new();
    let mut i: usize = 0;
    while i < s.len()
        invariant
            i <= s.len(),
            out@ == ascii_upper(s@.subrange(0, i as int)),
        decreases s.len() - i,
    {
        let c = s[i];
        let u = if c >= 'a' && c <= 'z' {
            let b: u8 = c as u8;
            (b - 32) as char
        } else {
            c
        };
        out.push(u);
        proof {
            assert(ascii_upper(s@.subrange(0, i + 1)) =~= ascii_upper(s@.subrange(0, i as int)).push(
                upper_char(s@[i as int]),
            ));
        }
        i = i + 1;
    }
    proof {
        assert(s@.subrange(0, s.len() as int) =~= s@);
    }
    out
}

/// The character of a decimal digit.
pub open spec fn digit_char(d: nat) -> char {
    ((d + 48) as u32) as char
}

/// The decimal numeral of a number, without sign or leading zeros.
pub open spec fn decimal(n: nat) -> Seq<char>
    decreases n,
{
    if n < 10 {
        seq![digit_char(n)]
    } else {
        decimal(n / 10).push(digit_char(n % 10))
    }
}

/// The decimal numeral of a number.
pub fn decimal_chars(n: u128) -> (r: Vec<char>)
    ensures
        r@ == decimal(n as nat),
    decreases n,
{
    let d: u8 = (n % 10) as u8;
    let c: char = (d + 48) as char;
    if n < 10 {
        let mut v: Vec<char> = Vec::new();
        v.push(c);
        proof {
            assert(v@ =~= seq![digit_char(n as nat)]);
        }
        v
    } else {
        let mut v = decimal_chars(n / 10);
        v.push(c);
        v
    }
}

} // verus!
