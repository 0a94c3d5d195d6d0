//! Character-level string utilities shared by the rest of the library.
//!
//! Strings are viewed as sequences of Unicode scalar values (`Seq<char>`).
//! Each executable helper here is proved against a short spec function.
use vstd::prelude::*;

verus! {

// ─── Conversions ─────────────────────────────────

/// Appends one character to a string (`String::push`).
#[verifier::external_body]
pub(crate) fn push_char(s: &mut String, c: char)
    ensures
        final(s)@ == old(s)@.push(c),
{
    s.push(c);
}

/// The characters of a string slice, in order.
pub fn to_chars(s: &str) -> (r: Vec<char>)
    ensures
        r@ == s@,
{
    let mut r: Vec<char> = Vec::new();
    for c in it: s.chars()
        invariant
            r@ == it.seq().take(it.index() as int),
    {
        r.push(c);
    }
    r
}

/// Builds a string from a character sequence.
pub fn from_chars(v: &[char]) -> (r: String)
    ensures
        r@ == v@,
{
    let mut r = String::new();
    let mut i: usize = 0;
    while i < v.len()
        invariant
            i <= v.len(),
            r@ == v@.take(i as int),
        decreases v.len() - i,
    {
        push_char(&mut r, v[i]);
        assert(v@.take(i + 1) == v@.take(i as int).push(v@[i as int]));
        i += 1;
    }
    assert(v@.take(v.len() as int) == v@);
    r
}

/// Appends every character of `v` to `s`.
pub fn push_chars(s: &mut String, v: &[char])
    ensures
        final(s)@ == old(s)@ + v@,
{
    let mut i: usize = 0;
    while i < v.len()
        invariant
            i <= v.len(),
            s@ == old(s)@ + v@.take(i as int),
        decreases v.len() - i,
    {
        push_char(s, v[i]);
        assert(v@.take(i + 1) == v@.take(i as int).push(v@[i as int]));
        i += 1;
    }
    assert(v@.take(v.len() as int) == v@);
}


/// Appends `t` to `s`.
pub fn append_str(s: &mut String, t: &str)
    ensures
        final(s)@ == old(s)@ + t@,
{
    let c = to_chars(t);
    push_chars(s, c.as_slice());
}

/// Concatenation of two string slices into a new string.
pub fn concat2(a: &str, b: &str) -> (r: String)
    ensures
        r@ == a@ + b@,
{
    let mut r = a.to_string();
    r.append(b);
    r
}

/// Concatenation of three string slices into a new string.
pub fn concat3(a: &str, b: &str, c: &str) -> (r: String)
    ensures
        r@ == a@ + b@ + c@,
{
    let mut r = a.to_string();
    r.append(b);
    r.append(c);
    r
}

/// Equality of two character slices.
pub fn chars_eq(a: &[char], b: &[char]) -> (r: bool)
    ensures
        r == (a@ == b@),
{
    if a.len() != b.len() {
        return false;
    }
    let mut i: usize = 0;
    while i < a.len()
        invariant
            a.len() == b.len(),
            i <= a.len(),
            forall|k: int| 0 <= k < i ==> a@[k] == b@[k],
        decreases a.len() - i,
    {
        if a[i] != b[i] {
            return false;
        }
        i += 1;
    }
    assert(a@ =~= b@);
    true
}

/// Equality of two string slices by content.
pub fn str_eq(a: &str, b: &str) -> (r: bool)
    ensures
        r == (a@ == b@),
{
    let x = to_chars(a);
    let y = to_chars(b);
    chars_eq(x.as_slice(), y.as_slice())
}

// ─── Searching ───────────────────────────────────

/// `p` occurs in `s` starting at position `i`.
pub open spec fn matches_at(s: Seq<char>, p: Seq<char>, i: int) -> bool {
    0 <= i && i + p.len() <= s.len() && s.subrange(i, i + p.len()) == p
}

/// The first position at or after `i` where `p` occurs in `s`.
pub open spec fn find_from(s: Seq<char>, p: Seq<char>, i: int) -> Option<int>
    decreases s.len() + 1 - i,
{
    if i < 0 || i + p.len() > s.len() {
        None
    } else if matches_at(s, p, i) {
        Some(i)
    } else {
        find_from(s, p, i + 1)
    }
}

/// The first position where `p` occurs in `s` (`str::find` with a string pattern).
pub open spec fn spec_find(s: Seq<char>, p: Seq<char>) -> Option<int> {
    find_from(s, p, 0)
}

/// `s` contains `p` as a contiguous piece.
pub open spec fn spec_contains(s: Seq<char>, p: Seq<char>) -> bool {
    spec_find(s, p) is Some
}

/// `s` starts with `p`.
pub open spec fn spec_starts_with(s: Seq<char>, p: Seq<char>) -> bool {
    p.len() <= s.len() && s.take(p.len() as int) == p
}

/// `s` ends with `p`.
pub open spec fn spec_ends_with(s: Seq<char>, p: Seq<char>) -> bool {
    p.len() <= s.len() && s.skip(s.len() - p.len()) == p
}

/// What `find_from` returns, stated without recursion.
pub proof fn lemma_find_from(s: Seq<char>, p: Seq<char>, i: int)
    requires
        0 <= i,
    ensures
        match find_from(s, p, i) {
            Some(k) => i <= k && matches_at(s, p, k) && forall|j: int|
                i <= j < k ==> !matches_at(s, p, j),
            None => forall|j: int| i <= j ==> !matches_at(s, p, j),
        },
    decreases s.len() + 1 - i,
{
    if i + p.len() > s.len() {
    } else if matches_at(s, p, i) {
    } else {
        lemma_find_from(s, p, i + 1);
    }
}

/// Whether `p` occurs in `s` at position `i`.
pub fn matches_at_exec(s: &[char], p: &[char], i: usize) -> (r: bool)
    ensures
        r == matches_at(s@, p@, i as int),
{
    if p.len() > s.len() || i > s.len() - p.len() {
        return false;
    }
    let mut k: usize = 0;
    while k < p.len()
        invariant
            k <= p.len(),
            i + p.len() <= s.len(),
            forall|t: int| 0 <= t < k ==> s@[i + t] == p@[t],
        decreases p.len() - k,
    {
        if s[i + k] != p[k] {
            assert(s@.subrange(i as int, i + p.len())[k as int] != p@[k as int]);
            return false;
        }
        k += 1;
    }
    assert(s@.subrange(i as int, i + p.len()) =~= p@);
    true
}

/// The first position at or after `from` where `p` occurs in `s`.
pub fn find_chars_from(s: &[char], p: &[char], from: usize) -> (r: Option<usize>)
    ensures
        match r {
            Some(k) => find_from(s@, p@, from as int) == Some(k as int),
            None => find_from(s@, p@, from as int) is None,
        },
{
    if p.len() > s.len() || from > s.len() - p.len() {
        return None;
    }
    let last = s.len() - p.len();
    let mut i = from;
    loop
        invariant
            from <= i <= last,
            last == s.len() - p.len(),
            p.len() <= s.len(),
            find_from(s@, p@, from as int) == find_from(s@, p@, i as int),
        decreases last - i,
    {
        if matches_at_exec(s, p, i) {
            return Some(i);
        }
        if i == last {
            assert(find_from(s@, p@, i + 1) is None);
            return None;
        }
        i += 1;
    }
}

/// The first position where `p` occurs in `s`.
pub fn find_chars(s: &[char], p: &[char]) -> (r: Option<usize>)
    ensures
        match r {
            Some(k) => spec_find(s@, p@) == Some(k as int),
            None => spec_find(s@, p@) is None,
        },
{
    find_chars_from(s, p, 0)
}

/// Whether `p` occurs in `s`.
pub fn contains_chars(s: &[char], p: &[char]) -> (r: bool)
    ensures
        r == spec_contains(s@, p@),
{
    find_chars(s, p).is_some()
}

/// Whether the string `s` contains the string `p`.
pub fn str_contains(s: &str, p: &str) -> (r: bool)
    ensures
        r == spec_contains(s@, p@),
{
    let a = to_chars(s);
    let b = to_chars(p);
    contains_chars(a.as_slice(), b.as_slice())
}

/// Whether `s` starts with `p`.
pub fn starts_with_chars(s: &[char], p: &[char]) -> (r: bool)
    ensures
        r == spec_starts_with(s@, p@),
{
    if p.len() > s.len() {
        return false;
    }
    let mut i: usize = 0;
    while i < p.len()
        invariant
            p.len() <= s.len(),
            i <= p.len(),
            forall|k: int| 0 <= k < i ==> s@[k] == p@[k],
        decreases p.len() - i,
    {
        if s[i] != p[i] {
            assert(s@.take(p.len() as int)[i as int] != p@[i as int]);
            return false;
        }
        i += 1;
    }
    assert(s@.take(p.len() as int) =~= p@);
    true
}

/// Whether the string `s` starts with the string `p`.
pub fn str_starts_with(s: &str, p: &str) -> (r: bool)
    ensures
        r == spec_starts_with(s@, p@),
{
    let a = to_chars(s);
    let b = to_chars(p);
    starts_with_chars(a.as_slice(), b.as_slice())
}

/// The position of the first occurrence of `c` in `s`.
pub open spec fn index_of(s: Seq<char>, c: char) -> Option<int> {
    spec_find(s, seq![c])
}

/// The first position of the character `c`.
pub fn find_char(s: &[char], c: char) -> (r: Option<usize>)
    ensures
        match r {
            Some(k) => index_of(s@, c) == Some(k as int) && k < s@.len() && s@[k as int] == c
                && forall|j: int| 0 <= j < k ==> s@[j] != c,
            None => index_of(s@, c) is None && forall|j: int| 0 <= j < s@.len() ==> s@[j] != c,
        },
{
    let p = vec![c];
    assert(p@ == seq![c]);
    let r = find_chars(s, p.as_slice());
    proof {
        lemma_find_from(s@, seq![c], 0);
        match r {
            Some(k) => {
                assert(s@.subrange(k as int, k + 1)[0] == c);
                assert forall|j: int| 0 <= j < k implies s@[j] != c by {
                    if s@[j] == c {
                        assert(s@.subrange(j, j + 1) =~= seq![c]);
                        assert(matches_at(s@, seq![c], j));
                    }
                }
            },
            None => {
                assert forall|j: int| 0 <= j < s@.len() implies s@[j] != c by {
                    if s@[j] == c {
                        assert(s@.subrange(j, j + 1) =~= seq![c]);
                        assert(matches_at(s@, seq![c], j));
                    }
                }
            },
        }
    }
    r
}

// ─── Replacement ─────────────────────────────────

/// `str::replace` with a non-empty pattern: every non-overlapping occurrence,
/// scanned from the left, is replaced by `to`.
pub open spec fn replace_all_spec(s: Seq<char>, from: Seq<char>, to: Seq<char>) -> Seq<char>
    decreases s.len(),
{
    if from.len() == 0 {
        s
    } else {
        match spec_find(s, from) {
            None => s,
            Some(i) => if 0 <= i && i + from.len() <= s.len() {
                s.take(i) + to + replace_all_spec(s.skip(i + from.len()), from, to)
            } else {
                s
            },
        }
    }
}

/// Appends `s[a..b]` to `out`.
pub fn push_range(out: &mut Vec<char>, s: &[char], a: usize, b: usize)
    requires
        a <= b <= s.len(),
    ensures
        final(out)@ == old(out)@ + s@.subrange(a as int, b as int),
{
    let mut k = a;
    while k < b
        invariant
            a <= k <= b,
            b <= s.len(),
            out@ == old(out)@ + s@.subrange(a as int, k as int),
        decreases b - k,
    {
        out.push(s[k]);
        assert(s@.subrange(a as int, k + 1) == s@.subrange(a as int, k as int).push(s@[k as int]));
        k += 1;
    }
}

/// Appends all of `s` to `out`.
pub fn push_all(out: &mut Vec<char>, s: &[char])
    ensures
        final(out)@ == old(out)@ + s@,
{
    push_range(out, s, 0, s.len());
    assert(s@.subrange(0, s@.len() as int) == s@);
}

/// Searching a suffix of `s` is searching `s` from the suffix's start.
pub proof fn lemma_find_from_skip(s: Seq<char>, p: Seq<char>, pos: int, i: int)
    requires
        0 <= pos <= s.len(),
        0 <= i,
    ensures
        match find_from(s.skip(pos), p, i) {
            Some(k) => find_from(s, p, pos + i) == Some(k + pos),
            None => find_from(s, p, pos + i) is None,
        },
    decreases s.len() + 1 - pos - i,
{
    let t = s.skip(pos);
    if i + p.len() > t.len() {
    } else {
        assert(t.subrange(i, i + p.len()) =~= s.subrange(pos + i, pos + i + p.len()));
        if matches_at(t, p, i) {
        } else {
            lemma_find_from_skip(s, p, pos, i + 1);
        }
    }
}

/// Replaces every occurrence of `from` in `s` by `to`, scanning from the left.
pub fn replace_all(s: &[char], from: &[char], to: &[char]) -> (r: Vec<char>)
    requires
        from.len() > 0,
    ensures
        r@ == replace_all_spec(s@, from@, to@),
{
    let mut out: Vec<char> = Vec::new();
    let mut pos: usize = 0;
    assert(s@.skip(0) == s@);
    loop
        invariant
            from.len() > 0,
            pos <= s.len(),
            out@ + replace_all_spec(s@.skip(pos as int), from@, to@) == replace_all_spec(
                s@,
                from@,
                to@,
            ),
        decreases s.len() + 1 - pos,
    {
        let found = find_chars_from(s, from, pos);
        proof {
            lemma_find_from_skip(s@, from@, pos as int, 0);
            lemma_find_from(s@, from@, pos as int);
        }
        match found {
            None => {
                push_range(&mut out, s, pos, s.len());
                assert(s@.subrange(pos as int, s.len() as int) == s@.skip(pos as int));
                return out;
            },
            Some(k) => {
                let ghost rest = s@.skip(pos as int);
                assert(rest.take(k - pos) == s@.subrange(pos as int, k as int));
                assert(rest.skip(k - pos + from.len()) == s@.skip(k + from.len()));
                push_range(&mut out, s, pos, k);
                push_all(&mut out, to);
                pos = k + from.len();
            },
        }
    }
}

/// The pieces of `s` between `c` characters (`str::split`).
pub open spec fn split_on(s: Seq<char>, c: char) -> Seq<Seq<char>>
    decreases s.len(),
{
    match index_of(s, c) {
        None => seq![s],
        Some(k) => if 0 <= k < s.len() {
            seq![s.take(k)] + split_on(s.skip(k + 1), c)
        } else {
            seq![s]
        },
    }
}

/// The character sequences of a list of character vectors.
pub open spec fn pieces_view(v: Seq<Vec<char>>) -> Seq<Seq<char>> {
    v.map_values(|p: Vec<char>| p@)
}

/// Splits `s` at every `c` (`str::split` with a character).
pub fn split_chars(s: &[char], c: char) -> (r: Vec<Vec<char>>)
    ensures
        pieces_view(r@) == split_on(s@, c),
{
    let mut out: Vec<Vec<char>> = Vec::new();
    let mut pos: usize = 0;
    assert(s@.skip(0) == s@);
    loop
        invariant
            pos <= s.len(),
            pieces_view(out@) + split_on(s@.skip(pos as int), c) == split_on(s@, c),
        decreases s.len() - pos,
    {
        let ghost rest = s@.skip(pos as int);
        let mut tail = Vec::new();
        push_range(&mut tail, s, pos, s.len());
        assert(s@.subrange(pos as int, s@.len() as int) == rest);
        match find_char(tail.as_slice(), c) {
            None => {
                assert(split_on(rest, c) == seq![rest]);
                let ghost before = pieces_view(out@);
                out.push(tail);
                assert(pieces_view(out@) =~= before + seq![rest]);
                return out;
            },
            Some(k) => {
                let mut piece = Vec::new();
                push_range(&mut piece, tail.as_slice(), 0, k);
                assert(tail@.subrange(0, k as int) == rest.take(k as int));
                assert(rest.skip(k + 1) == s@.skip(pos + k + 1));
                assert(split_on(rest, c) == seq![rest.take(k as int)] + split_on(rest.skip(k + 1), c));
                let ghost before = pieces_view(out@);
                out.push(piece);
                assert(pieces_view(out@) =~= before + seq![rest.take(k as int)]);
                assert(before + seq![rest.take(k as int)] + split_on(rest.skip(k + 1), c) =~= before + (
                seq![rest.take(k as int)] + split_on(rest.skip(k + 1), c)));
                pos = pos + k + 1;
            },
        }
    }
}

// ─── Whitespace ──────────────────────────────────

/// Unicode `White_Space` (`char::is_whitespace`).
pub open spec fn is_ws(c: char) -> bool {
    let u = c as u32;
    (0x9 <= u <= 0xD) || u == 0x20 || u == 0x85 || u == 0xA0 || u == 0x1680 || (0x2000 <= u
        <= 0x200A) || u == 0x2028 || u == 0x2029 || u == 0x202F || u == 0x205F || u == 0x3000
}

/// `char::is_whitespace`.
pub fn is_whitespace(c: char) -> (r: bool)
    ensures
        r == is_ws(c),
{
    let u = c as u32;
    (0x9 <= u && u <= 0xD) || u == 0x20 || u == 0x85 || u == 0xA0 || u == 0x1680 || (0x2000 <= u
        && u <= 0x200A) || u == 0x2028 || u == 0x2029 || u == 0x202F || u == 0x205F || u == 0x3000
}

/// Number of leading whitespace characters of `s`.
pub open spec fn lead_ws(s: Seq<char>) -> nat
    decreases s.len(),
{
    if s.len() > 0 && is_ws(s[0]) {
        1 + lead_ws(s.skip(1))
    } else {
        0
    }
}

/// Number of trailing whitespace characters of `s`.
pub open spec fn trail_ws(s: Seq<char>) -> nat
    decreases s.len(),
{
    if s.len() > 0 && is_ws(s.last()) {
        1 + trail_ws(s.drop_last())
    } else {
        0
    }
}

/// `str::trim_start`.
pub open spec fn trim_start_spec(s: Seq<char>) -> Seq<char> {
    s.skip(lead_ws(s) as int)
}

/// `str::trim_end`.
pub open spec fn trim_end_spec(s: Seq<char>) -> Seq<char> {
    s.take(s.len() - trail_ws(s))
}

/// `str::trim`.
pub open spec fn trim_spec(s: Seq<char>) -> Seq<char> {
    trim_end_spec(trim_start_spec(s))
}

proof fn lemma_lead_ws_bound(s: Seq<char>)
    ensures
        lead_ws(s) <= s.len(),
        forall|k: int| 0 <= k < lead_ws(s) ==> is_ws(#[trigger] s[k]),
        lead_ws(s) < s.len() ==> !is_ws(s[lead_ws(s) as int]),
    decreases s.len(),
{
    if s.len() > 0 && is_ws(s[0]) {
        lemma_lead_ws_bound(s.skip(1));
        assert forall|k: int| 0 <= k < lead_ws(s) implies is_ws(#[trigger] s[k]) by {
            if k > 0 {
                assert(s[k] == s.skip(1)[k - 1]);
            }
        }
    }
}

proof fn lemma_trail_ws_bound(s: Seq<char>)
    ensures
        trail_ws(s) <= s.len(),
        forall|k: int| s.len() - trail_ws(s) <= k < s.len() ==> is_ws(#[trigger] s[k]),
        trail_ws(s) < s.len() ==> !is_ws(s[s.len() - trail_ws(s) - 1]),
    decreases s.len(),
{
    if s.len() > 0 && is_ws(s.last()) {
        lemma_trail_ws_bound(s.drop_last());
        assert forall|k: int| s.len() - trail_ws(s) <= k < s.len() implies is_ws(#[trigger] s[k]) by {
            if k < s.len() - 1 {
                assert(s[k] == s.drop_last()[k]);
            }
        }
    }
}

/// `lead_ws` counts the whitespace before the first other character.
proof fn lemma_lead_ws_exact(s: Seq<char>, a: int)
    requires
        0 <= a <= s.len(),
        forall|k: int| 0 <= k < a ==> is_ws(#[trigger] s[k]),
        a < s.len() ==> !is_ws(s[a]),
    ensures
        lead_ws(s) == a,
    decreases a,
{
    if a > 0 {
        assert forall|k: int| 0 <= k < a - 1 implies is_ws(#[trigger] s.skip(1)[k]) by {
            assert(s.skip(1)[k] == s[k + 1]);
        }
        if a - 1 < s.skip(1).len() {
            assert(s.skip(1)[a - 1] == s[a]);
        }
        lemma_lead_ws_exact(s.skip(1), a - 1);
    }
}

/// `trail_ws` counts the whitespace after the last other character.
proof fn lemma_trail_ws_exact(s: Seq<char>, b: int)
    requires
        0 <= b <= s.len(),
        forall|k: int| b <= k < s.len() ==> is_ws(#[trigger] s[k]),
        b > 0 ==> !is_ws(s[b - 1]),
    ensures
        trail_ws(s) == s.len() - b,
    decreases s.len() - b,
{
    if b < s.len() {
        let t = s.drop_last();
        assert forall|k: int| b <= k < t.len() implies is_ws(#[trigger] t[k]) by {
            assert(t[k] == s[k]);
        }
        if b > 0 {
            assert(t[b - 1] == s[b - 1]);
        }
        assert(is_ws(s[s.len() - 1]));
        lemma_trail_ws_exact(t, b);
    }
}

/// `trim_spec(s)` is `s[a..b]` when only whitespace lies outside `a..b`
/// and, unless the range is empty, its first and last characters are not
/// whitespace.
pub proof fn lemma_trim_is(s: Seq<char>, a: int, b: int)
    requires
        0 <= a <= b <= s.len(),
        forall|k: int| 0 <= k < a ==> is_ws(#[trigger] s[k]),
        forall|k: int| b <= k < s.len() ==> is_ws(#[trigger] s[k]),
        a < b ==> !is_ws(s[a]) && !is_ws(s[b - 1]),
    ensures
        trim_spec(s) == s.subrange(a, b),
{
    if a < b {
        lemma_lead_ws_exact(s, a);
        let t = s.skip(a);
        assert forall|k: int| b - a <= k < t.len() implies is_ws(#[trigger] t[k]) by {
            assert(t[k] == s[k + a]);
        }
        assert(t[b - a - 1] == s[b - 1]);
        lemma_trail_ws_exact(t, b - a);
        assert(trim_spec(s) =~= s.subrange(a, b));
    } else {
        assert forall|k: int| 0 <= k < s.len() implies is_ws(#[trigger] s[k]) by {
            if k >= a {
                assert(k >= b);
            }
        }
        lemma_lead_ws_exact(s, s.len() as int);
        assert(trim_spec(s) =~= s.subrange(a, b));
    }
}

/// The bounds of `trim_spec(s)` within `s`, as [`lemma_trim_is`] takes them.
pub proof fn trim_bounds(s: Seq<char>) -> (r: (int, int))
    ensures
        0 <= r.0 <= r.1 <= s.len(),
        forall|k: int| 0 <= k < r.0 ==> is_ws(#[trigger] s[k]),
        forall|k: int| r.1 <= k < s.len() ==> is_ws(#[trigger] s[k]),
        r.0 < r.1 ==> !is_ws(s[r.0]) && !is_ws(s[r.1 - 1]),
        r.0 < r.1 <==> exists|k: int| 0 <= k < s.len() && !is_ws(#[trigger] s[k]),
        trim_spec(s) == s.subrange(r.0, r.1),
{
    lemma_lead_ws_bound(s);
    let a = lead_ws(s) as int;
    let t = s.skip(a);
    lemma_trail_ws_bound(t);
    let b = a + t.len() - trail_ws(t);
    assert forall|k: int| b <= k < s.len() implies is_ws(#[trigger] s[k]) by {
        assert(s[k] == t[k - a]);
    }
    if a < b {
        assert(s[b - 1] == t[b - a - 1]);
        assert(s[a] == t[0]);
    } else {
        assert forall|k: int| 0 <= k < s.len() implies is_ws(#[trigger] s[k]) by {
            if k >= a {
                assert(s[k] == t[k - a]);
            }
        }
    }
    assert(trim_spec(s) =~= s.subrange(a, b));
    (a, b)
}

/// The first position of `c` in `s` is `n` when `s[n]` is `c` and no
/// earlier character is.
pub proof fn lemma_index_of_at(s: Seq<char>, c: char, n: int)
    requires
        0 <= n < s.len(),
        s[n] == c,
        forall|k: int| 0 <= k < n ==> #[trigger] s[k] != c,
    ensures
        index_of(s, c) == Some(n),
{
    lemma_find_from(s, seq![c], 0);
    assert(matches_at(s, seq![c], n)) by {
        assert(s.subrange(n, n + 1) =~= seq![c]);
    }
    match index_of(s, c) {
        Some(k) => {
            if k < n {
                assert(s.subrange(k, k + 1)[0] == s[k]);
            }
        },
        None => {},
    }
}

/// Position of the first non-whitespace character from `a`, within `s[a..]`.
fn skip_ws_forward(s: &[char], a: usize) -> (r: usize)
    requires
        a <= s.len(),
    ensures
        r == a + lead_ws(s@.skip(a as int)),
        r <= s.len(),
{
    proof {
        lemma_lead_ws_bound(s@.skip(a as int));
    }
    let mut i = a;
    while i < s.len() && is_whitespace(s[i])
        invariant
            a <= i <= s.len(),
            lead_ws(s@.skip(a as int)) == (i - a) + lead_ws(s@.skip(i as int)),
        decreases s.len() - i,
    {
        assert(s@.skip(i as int).skip(1) == s@.skip(i + 1));
        i += 1;
    }
    i
}

/// Trims Unicode whitespace from both ends.
pub fn trim_chars(s: &[char]) -> (r: Vec<char>)
    ensures
        r@ == trim_spec(s@),
{
    let a = skip_ws_forward(s, 0);
    assert(s@.skip(0) == s@);
    let ghost t = s@.skip(a as int);
    let mut b = s.len();
    assert(t.take(b - a) == t);
    while b > a && is_whitespace(s[b - 1])
        invariant
            a <= b <= s.len(),
            t == s@.skip(a as int),
            trail_ws(t) == (s.len() - b) + trail_ws(t.take(b - a)),
        decreases b,
    {
        assert(t.take(b - a).drop_last() == t.take(b - a - 1));
        assert(t.take(b - a).last() == s@[b - 1]);
        b -= 1;
    }
    proof {
        if b > a {
            assert(t.take(b - a).last() == s@[b - 1]);
        }
        assert(trail_ws(t.take(b - a)) == 0);
    }
    let mut out = Vec::new();
    push_range(&mut out, s, a, b);
    assert(out@ =~= t.take(t.len() - trail_ws(t)));
    out
}

/// `str::trim` on a string slice.
pub fn trim_str(s: &str) -> (r: String)
    ensures
        r@ == trim_spec(s@),
{
    let v = to_chars(s);
    let t = trim_chars(v.as_slice());
    from_chars(t.as_slice())
}

// ─── Words ───────────────────────────────────────

/// Length of the run of non-whitespace characters that starts `s`.
pub open spec fn word_len(s: Seq<char>) -> nat
    decreases s.len(),
{
    if s.len() == 0 || is_ws(s[0]) {
        0
    } else {
        1 + word_len(s.skip(1))
    }
}

/// A word is no longer than its text, and one starts wherever a
/// non-whitespace character does.
pub proof fn lemma_word_len(s: Seq<char>)
    ensures
        word_len(s) <= s.len(),
        s.len() > 0 && !is_ws(s[0]) ==> word_len(s) >= 1,
    decreases s.len(),
{
    if s.len() > 0 && !is_ws(s[0]) {
        lemma_word_len(s.skip(1));
    }
}

/// The whitespace-separated words of `s` (`str::split_whitespace`).
pub open spec fn words(s: Seq<char>) -> Seq<Seq<char>>
    decreases s.len(),
{
    if s.len() == 0 {
        Seq::empty()
    } else if is_ws(s[0]) {
        words(s.skip(1))
    } else {
        proof {
            lemma_word_len(s);
        }
        seq![s.take(word_len(s) as int)] + words(s.skip(word_len(s) as int))
    }
}

/// Splits `s` into its whitespace-separated words.
pub fn split_words(s: &[char]) -> (r: Vec<Vec<char>>)
    ensures
        pieces_view(r@) == words(s@),
{
    let mut out: Vec<Vec<char>> = Vec::new();
    let mut i: usize = 0;
    assert(s@.skip(0) == s@);
    while i < s.len()
        invariant
            i <= s.len(),
            pieces_view(out@) + words(s@.skip(i as int)) == words(s@),
        decreases s.len() - i,
    {
        let ghost rest = s@.skip(i as int);
        assert(rest[0] == s@[i as int]);
        if is_whitespace(s[i]) {
            assert(rest.skip(1) == s@.skip(i + 1));
            i += 1;
        } else {
            let mut j = i;
            while j < s.len() && !is_whitespace(s[j])
                invariant
                    i <= j <= s.len(),
                    word_len(rest) == (j - i) + word_len(s@.skip(j as int)),
                decreases s.len() - j,
            {
                assert(s@.skip(j as int)[0] == s@[j as int]);
                assert(s@.skip(j as int).skip(1) == s@.skip(j + 1));
                j += 1;
            }
            proof {
                if j < s.len() {
                    assert(s@.skip(j as int)[0] == s@[j as int]);
                }
                lemma_word_len(rest);
            }
            let mut piece = Vec::new();
            push_range(&mut piece, s, i, j);
            assert(s@.subrange(i as int, j as int) == rest.take(word_len(rest) as int));
            assert(rest.skip(word_len(rest) as int) == s@.skip(j as int));
            let ghost before = pieces_view(out@);
            out.push(piece);
            assert(pieces_view(out@) =~= before + seq![piece@]);
            assert(before + seq![piece@] + words(s@.skip(j as int)) =~= before + (seq![piece@]
                + words(s@.skip(j as int))));
            i = j;
        }
    }
    assert(s@.skip(i as int) =~= Seq::<char>::empty());
    assert(pieces_view(out@) + Seq::<Seq<char>>::empty() =~= pieces_view(out@));
    out
}

/// `s` with every leading repetition of `p` removed (`str::trim_start_matches`).
pub open spec fn strip_all(s: Seq<char>, p: Seq<char>) -> Seq<char>
    decreases s.len(),
{
    if p.len() > 0 && spec_starts_with(s, p) {
        strip_all(s.skip(p.len() as int), p)
    } else {
        s
    }
}

/// Removes every leading repetition of `p` from `s`.
pub fn strip_all_exec(s: &[char], p: &[char]) -> (r: Vec<char>)
    ensures
        r@ == strip_all(s@, p@),
{
    let mut i: usize = 0;
    let mut rest = Vec::new();
    push_range(&mut rest, s, 0, s.len());
    assert(s@.subrange(0, s@.len() as int) == s@);
    while p.len() > 0 && starts_with_chars(rest.as_slice(), p)
        invariant
            strip_all(s@, p@) == strip_all(rest@, p@),
        decreases rest.len(),
    {
        let mut next = Vec::new();
        push_range(&mut next, rest.as_slice(), p.len(), rest.len());
        assert(rest@.subrange(p.len() as int, rest@.len() as int) == rest@.skip(p.len() as int));
        rest = next;
    }
    rest
}

/// Whether `s` ends with `p`.
pub fn ends_with_chars(s: &[char], p: &[char]) -> (r: bool)
    ensures
        r == spec_ends_with(s@, p@),
{
    if p.len() > s.len() {
        return false;
    }
    let off = s.len() - p.len();
    let mut i: usize = 0;
    while i < p.len()
        invariant
            p.len() <= s.len(),
            off == s.len() - p.len(),
            i <= p.len(),
            forall|k: int| 0 <= k < i ==> s@[off + k] == p@[k],
        decreases p.len() - i,
    {
        if s[off + i] != p[i] {
            assert(s@.skip(off as int)[i as int] != p@[i as int]);
            return false;
        }
        i += 1;
    }
    assert(s@.skip(off as int) =~= p@);
    true
}

/// `s` with every trailing repetition of `p` removed (`str::trim_end_matches`).
pub open spec fn strip_suffixes(s: Seq<char>, p: Seq<char>) -> Seq<char>
    decreases s.len(),
{
    if p.len() > 0 && spec_ends_with(s, p) {
        strip_suffixes(s.take(s.len() - p.len()), p)
    } else {
        s
    }
}

/// Removes every trailing repetition of `p` from `s`.
pub fn strip_suffixes_exec(s: &[char], p: &[char]) -> (r: Vec<char>)
    ensures
        r@ == strip_suffixes(s@, p@),
{
    let mut end = s.len();
    assert(s@.take(end as int) == s@);
    while p.len() > 0 && end >= p.len() && ends_with_chars(&s[0..end], p)
        invariant
            end <= s.len(),
            strip_suffixes(s@, p@) == strip_suffixes(s@.take(end as int), p@),
        decreases end,
    {
        assert(s@.take(end as int).take(end - p.len()) == s@.take(end - p.len()));
        end = end - p.len();
    }
    proof {
        if p.len() > 0 && end < p.len() {
            assert(!spec_ends_with(s@.take(end as int), p@));
        }
    }
    let mut out = Vec::new();
    push_range(&mut out, s, 0, end);
    assert(s@.subrange(0, end as int) == s@.take(end as int));
    out
}

/// The pieces joined with `sep` between them (`[..].join(sep)`).
pub open spec fn join_spec(pieces: Seq<Seq<char>>, sep: Seq<char>) -> Seq<char>
    decreases pieces.len(),
{
    if pieces.len() == 0 {
        Seq::empty()
    } else if pieces.len() == 1 {
        pieces[0]
    } else {
        join_spec(pieces.drop_last(), sep) + sep + pieces.last()
    }
}

/// Joins the pieces with `sep` between them.
pub fn join_pieces(pieces: &[Vec<char>], sep: &[char]) -> (r: Vec<char>)
    ensures
        r@ == join_spec(pieces_view(pieces@), sep@),
{
    let mut out: Vec<char> = Vec::new();
    let mut i: usize = 0;
    while i < pieces.len()
        invariant
            i <= pieces.len(),
            out@ == join_spec(pieces_view(pieces@.take(i as int)), sep@),
        decreases pieces.len() - i,
    {
        if i > 0 {
            push_all(&mut out, sep);
        }
        push_all(&mut out, pieces[i].as_slice());
        assert(pieces_view(pieces@.take(i + 1)).drop_last() =~= pieces_view(pieces@.take(i as int)));
        assert(pieces_view(pieces@.take(i + 1)).last() == pieces@[i as int]@);
        if i == 0 {
            assert(pieces_view(pieces@.take(0)) =~= Seq::<Seq<char>>::empty());
            assert(out@ =~= join_spec(pieces_view(pieces@.take(i + 1)), sep@));
        }
        i += 1;
    }
    assert(pieces@.take(pieces.len() as int) == pieces@);
    out
}

/// The strings joined by `sep`.
pub open spec fn join_texts(v: Seq<String>, sep: Seq<char>) -> Seq<char>
    decreases v.len(),
{
    if v.len() == 0 {
        Seq::empty()
    } else if v.len() == 1 {
        v[0]@
    } else {
        join_texts(v.drop_last(), sep) + sep + v.last()@
    }
}

/// Joining strings is joining their texts.
pub proof fn lemma_join_texts_spec(v: Seq<String>, sep: Seq<char>)
    ensures
        join_texts(v, sep) == join_spec(v.map_values(|s: String| s@), sep),
    decreases v.len(),
{
    if v.len() > 1 {
        lemma_join_texts_spec(v.drop_last(), sep);
        assert(v.map_values(|s: String| s@).drop_last() =~= v.drop_last().map_values(|s: String| s@));
    }
}

/// Joins the strings with `sep` between them (`[..].join(sep)`).
pub fn join_strings(v: &Vec<String>, sep: &str) -> (r: String)
    ensures
        r@ == join_texts(v@, sep@),
{
    let mut out = String::new();
    let mut i: usize = 0;
    while i < v.len()
        invariant
            i <= v@.len(),
            out@ == join_texts(v@.take(i as int), sep@),
        decreases v@.len() - i,
    {
        if i > 0 {
            append_str(&mut out, sep);
        }
        append_str(&mut out, v[i].as_str());
        assert(v@.take(i + 1).drop_last() == v@.take(i as int));
        assert(v@.take(i + 1).last() == v@[i as int]);
        if i == 0 {
            assert(v@.take(0) =~= Seq::<String>::empty());
        }
        assert(out@ =~= join_texts(v@.take(i + 1), sep@));
        i += 1;
    }
    assert(v@.take(v@.len() as int) == v@);
    out
}

// ─── Decimal numbers ─────────────────────────────

/// The ASCII digit for `d` (0 ≤ d ≤ 9).
pub open spec fn digit_char(d: nat) -> char {
    if d == 0 {
        '0'
    } else if d == 1 {
        '1'
    } else if d == 2 {
        '2'
    } else if d == 3 {
        '3'
    } else if d == 4 {
        '4'
    } else if d == 5 {
        '5'
    } else if d == 6 {
        '6'
    } else if d == 7 {
        '7'
    } else if d == 8 {
        '8'
    } else {
        '9'
    }
}

/// The ASCII digit for `d`.
pub fn digit(d: u64) -> (c: char)
    requires
        d < 10,
    ensures
        c == digit_char(d as nat),
{
    if d == 0 {
        '0'
    } else if d == 1 {
        '1'
    } else if d == 2 {
        '2'
    } else if d == 3 {
        '3'
    } else if d == 4 {
        '4'
    } else if d == 5 {
        '5'
    } else if d == 6 {
        '6'
    } else if d == 7 {
        '7'
    } else if d == 8 {
        '8'
    } else {
        '9'
    }
}

/// Decimal representation of `n` without leading zeros (`{}` formatting).
pub open spec fn dec(n: nat) -> Seq<char>
    decreases n,
{
    if n < 10 {
        seq![digit_char(n)]
    } else {
        dec(n / 10).push(digit_char(n % 10))
    }
}

/// `s` left-padded with `'0'` to at least `w` characters (`{:0w}` formatting).
pub open spec fn zero_pad(s: Seq<char>, w: nat) -> Seq<char> {
    if s.len() >= w {
        s
    } else {
        Seq::new((w - s.len()) as nat, |i: int| '0') + s
    }
}

/// Decimal digits of `n`.
pub fn dec_chars(n: u64) -> (r: Vec<char>)
    ensures
        r@ == dec(n as nat),
    decreases n,
{
    if n < 10 {
        let v = vec![digit(n)];
        v
    } else {
        let mut v = dec_chars(n / 10);
        v.push(digit(n % 10));
        v
    }
}

/// Decimal digits of a 128-bit `n`.
pub fn dec_chars_u128(n: u128) -> (r: Vec<char>)
    ensures
        r@ == dec(n as nat),
    decreases n,
{
    if n < 10 {
        vec![digit(n as u64)]
    } else {
        let mut v = dec_chars_u128(n / 10);
        v.push(digit((n % 10) as u64));
        v
    }
}

/// `n` formatted with `{}`.
pub fn u64_to_string(n: u64) -> (r: String)
    ensures
        r@ == dec(n as nat),
{
    let v = dec_chars(n);
    from_chars(v.as_slice())
}

/// `n` formatted with `{:0w$}`.
pub fn u64_to_padded(n: u64, w: usize) -> (r: String)
    ensures
        r@ == zero_pad(dec(n as nat), w as nat),
{
    let d = dec_chars(n);
    let mut out = String::new();
    if d.len() < w {
        let k = w - d.len();
        let mut i: usize = 0;
        while i < k
            invariant
                i <= k,
                out@ == Seq::new(i as nat, |j: int| '0'),
            decreases k - i,
        {
            push_char(&mut out, '0');
            assert(out@ =~= Seq::new((i + 1) as nat, |j: int| '0'));
            i += 1;
        }
    }
    push_chars(&mut out, d.as_slice());
    assert(out@ =~= zero_pad(dec(n as nat), w as nat));
    out
}

/// ASCII decimal digit.
pub open spec fn is_digit(c: char) -> bool {
    '0' <= c <= '9'
}

/// Value of an ASCII decimal digit.
pub open spec fn digit_val(c: char) -> nat {
    (c as u32 - '0' as u32) as nat
}

/// Value of a string of decimal digits.
pub open spec fn dec_value(s: Seq<char>) -> nat
    decreases s.len(),
{
    if s.len() == 0 {
        0
    } else {
        dec_value(s.drop_last()) * 10 + digit_val(s.last())
    }
}

/// Every character of `s` is a decimal digit.
pub open spec fn all_digits(s: Seq<char>) -> bool {
    forall|i: int| 0 <= i < s.len() ==> is_digit(#[trigger] s[i])
}

/// `FromStr` for an unsigned integer type whose largest value is `max`:
/// an optional `+`, then one or more ASCII digits, with a value of at most `max`.
pub open spec fn parse_uint_spec(s: Seq<char>, max: nat) -> Option<nat> {
    let body = if s.len() > 0 && s[0] == '+' {
        s.skip(1)
    } else {
        s
    };
    if body.len() == 0 || !all_digits(body) || dec_value(body) > max {
        None
    } else {
        Some(dec_value(body))
    }
}

proof fn lemma_dec_value_prefix_mono(s: Seq<char>, i: int, j: int)
    requires
        0 <= i <= j <= s.len(),
    ensures
        dec_value(s.take(i)) <= dec_value(s.take(j)),
    decreases j - i,
{
    if i < j {
        lemma_dec_value_prefix_mono(s, i, j - 1);
        assert(s.take(j).drop_last() == s.take(j - 1));
    }
}

/// Parses an unsigned decimal integer whose value may not exceed `max`.
pub fn parse_uint(s: &[char], max: u64) -> (r: Option<u64>)
    ensures
        match r {
            Some(v) => parse_uint_spec(s@, max as nat) == Some(v as nat),
            None => parse_uint_spec(s@, max as nat) is None,
        },
{
    let start: usize = if s.len() > 0 && s[0] == '+' {
        1
    } else {
        0
    };
    let ghost body = if s@.len() > 0 && s@[0] == '+' {
        s@.skip(1)
    } else {
        s@
    };
    assert(body == s@.skip(start as int));
    if start == s.len() {
        return None;
    }
    let mut acc: u64 = 0;
    let mut i = start;
    while i < s.len()
        invariant
            start <= i <= s.len(),
            body == s@.skip(start as int),
            body == (if s@.len() > 0 && s@[0] == '+' {
                s@.skip(1)
            } else {
                s@
            }),
            acc as nat == dec_value(body.take(i - start)),
            acc <= max,
            all_digits(body.take(i - start)),
        decreases s.len() - i,
    {
        let c = s[i];
        assert(body[i - start] == c);
        if !('0' <= c && c <= '9') {
            assert(!is_digit(body[i - start]));
            assert(!all_digits(body));
            assert(parse_uint_spec(s@, max as nat) is None);
            return None;
        }
        let d = (c as u32 - '0' as u32) as u64;
        assert(body.take(i + 1 - start).drop_last() == body.take(i - start));
        assert(body.take(i + 1 - start).last() == c);
        if d > max || acc > (max - d) / 10 {
            proof {
                assert(acc * 10 + d > max) by (nonlinear_arith)
                    requires
                        d > max || acc > (max - d) / 10,
                ;
                lemma_dec_value_prefix_mono(body, i + 1 - start, body.len() as int);
                assert(body.take(body.len() as int) == body);
                assert(dec_value(body.take(i + 1 - start)) == acc * 10 + d);
                assert(dec_value(body) > max);
                assert(parse_uint_spec(s@, max as nat) is None);
            }
            return None;
        }
        proof {
            assert(acc * 10 + d <= max) by (nonlinear_arith)
                requires
                    acc <= (max - d) / 10,
                    d <= max,
            ;
        }
        acc = acc * 10 + d;
        assert(all_digits(body.take(i + 1 - start)));
        i += 1;
    }
    assert(body.take(s.len() - start) == body);
    Some(acc)
}

/// Why a signed integer could not be read (`std::num::IntErrorKind`).
#[derive(Debug, Clone, Copy, PartialEq, Eq, Structural)]
pub enum IntParseError {
    Empty,
    InvalidDigit,
    PosOverflow,
    NegOverflow,
}

/// The text `ParseIntError` displays for each kind.
pub open spec fn int_error_text(e: IntParseError) -> Seq<char> {
    match e {
        IntParseError::Empty => "cannot parse integer from empty string"@,
        IntParseError::InvalidDigit => "invalid digit found in string"@,
        IntParseError::PosOverflow => "number too large to fit in target type"@,
        IntParseError::NegOverflow => "number too small to fit in target type"@,
    }
}

impl IntParseError {
    /// The text `ParseIntError` displays for this kind.
    pub fn message(&self) -> (r: String)
        ensures
            r@ == int_error_text(*self),
    {
        match self {
            IntParseError::Empty => "cannot parse integer from empty string".to_string(),
            IntParseError::InvalidDigit => "invalid digit found in string".to_string(),
            IntParseError::PosOverflow => "number too large to fit in target type".to_string(),
            IntParseError::NegOverflow => "number too small to fit in target type".to_string(),
        }
    }
}

/// The value of the digits `d` read from the left into an `i64` (subtracting
/// them when `neg`), or the first failure: a character that is not a digit,
/// or a value that leaves the `i64` range.
pub open spec fn accum_i64(d: Seq<char>, neg: bool) -> Result<int, IntParseError>
    decreases d.len(),
{
    if d.len() == 0 {
        Ok(0)
    } else {
        match accum_i64(d.drop_last(), neg) {
            Err(e) => Err(e),
            Ok(v) => if !is_digit(d.last()) {
                Err(IntParseError::InvalidDigit)
            } else {
                let w = if neg {
                    v * 10 - digit_val(d.last())
                } else {
                    v * 10 + digit_val(d.last())
                };
                if w > i64::MAX {
                    Err(IntParseError::PosOverflow)
                } else if w < i64::MIN {
                    Err(IntParseError::NegOverflow)
                } else {
                    Ok(w)
                }
            },
        }
    }
}

/// `str::parse::<i64>`: an optional sign, then one or more ASCII digits.
pub open spec fn parse_i64_spec(s: Seq<char>) -> Result<int, IntParseError> {
    if s.len() == 0 {
        Err(IntParseError::Empty)
    } else if (s[0] == '-' || s[0] == '+') && s.len() == 1 {
        Err(IntParseError::InvalidDigit)
    } else if s[0] == '-' {
        accum_i64(s.skip(1), true)
    } else if s[0] == '+' {
        accum_i64(s.skip(1), false)
    } else {
        accum_i64(s, false)
    }
}

/// Reads a signed decimal integer as `str::parse::<i64>` does.
pub fn parse_i64(s: &[char]) -> (r: Result<i64, IntParseError>)
    ensures
        match r {
            Ok(n) => parse_i64_spec(s@) == Ok::<int, IntParseError>(n as int),
            Err(e) => parse_i64_spec(s@) == Err::<int, IntParseError>(e),
        },
{
    if s.len() == 0 {
        return Err(IntParseError::Empty);
    }
    if (s[0] == '-' || s[0] == '+') && s.len() == 1 {
        return Err(IntParseError::InvalidDigit);
    }
    let neg = s[0] == '-';
    let start: usize = if s[0] == '-' || s[0] == '+' {
        1
    } else {
        0
    };
    let ghost body = s@.skip(start as int);
    assert(start == 0 ==> body == s@);
    assert(body.take(0) =~= Seq::<char>::empty());
    assert(parse_i64_spec(s@) == accum_i64(body, neg));
    let mut acc: i64 = 0;
    let mut i = start;
    while i < s.len()
        invariant
            start <= i <= s.len(),
            body == s@.skip(start as int),
            parse_i64_spec(s@) == accum_i64(body, neg),
            accum_i64(body.take(i - start), neg) == Ok::<int, IntParseError>(acc as int),
        decreases s.len() - i,
    {
        let c = s[i];
        assert(body.take(i + 1 - start).drop_last() == body.take(i - start));
        assert(body.take(i + 1 - start).last() == c);
        proof {
            lemma_accum_prefix_err(body, (i + 1 - start) as int, neg);
        }
        if !('0' <= c && c <= '9') {
            return Err(IntParseError::InvalidDigit);
        }
        let d = (c as u32 - '0' as u32) as i128;
        let w: i128 = if neg {
            acc as i128 * 10 - d
        } else {
            acc as i128 * 10 + d
        };
        if w > i64::MAX as i128 {
            return Err(IntParseError::PosOverflow);
        }
        if w < i64::MIN as i128 {
            return Err(IntParseError::NegOverflow);
        }
        acc = w as i64;
        i += 1;
    }
    assert(body.take(s.len() - start) == body);
    Ok(acc)
}

/// A digit character is a digit, and its value is the digit.
pub proof fn lemma_digit_char(d: nat)
    requires
        d < 10,
    ensures
        is_digit(digit_char(d)),
        digit_val(digit_char(d)) == d,
{
}

/// The decimal text of a number is digits that read back as the number.
pub proof fn lemma_dec_reads_back(m: nat)
    ensures
        dec(m).len() >= 1,
        all_digits(dec(m)),
        dec_value(dec(m)) == m,
    decreases m,
{
    lemma_digit_char(m % 10);
    if m < 10 {
        assert(dec(m).drop_last() =~= Seq::<char>::empty());
        assert(dec(m).last() == digit_char(m));
        assert(dec_value(dec(m).drop_last()) == 0);
    } else {
        lemma_dec_reads_back(m / 10);
        assert(dec(m).drop_last() == dec(m / 10));
        assert(dec(m).last() == digit_char(m % 10));
        assert((m / 10) * 10 + m % 10 == m);
        assert forall|i: int| 0 <= i < dec(m).len() implies is_digit(#[trigger] dec(m)[i]) by {
            if i < dec(m).len() - 1 {
                assert(dec(m)[i] == dec(m / 10)[i]);
            }
        }
    }
}

/// The decimal text of a number starts with a digit.
pub proof fn lemma_dec_first(m: nat)
    ensures
        dec(m).len() >= 1,
        is_digit(dec(m)[0]),
    decreases m,
{
    if m < 10 {
        lemma_digit_char(m);
    } else {
        lemma_dec_first(m / 10);
        assert(dec(m)[0] == dec(m / 10)[0]);
    }
}

/// Reading the decimal text of `m` back accumulates `m` (or `-m` when
/// subtracting), as long as that fits in an `i64`.
pub proof fn lemma_accum_dec(m: nat, neg: bool)
    requires
        neg ==> m <= 9223372036854775808,
        !neg ==> m <= 9223372036854775807,
    ensures
        accum_i64(dec(m), neg) == Ok::<int, IntParseError>(if neg {
            -m
        } else {
            m as int
        }),
    decreases m,
{
    lemma_digit_char(m % 10);
    if m < 10 {
        assert(dec(m).drop_last() =~= Seq::<char>::empty());
        assert(accum_i64(dec(m).drop_last(), neg) == Ok::<int, IntParseError>(0));
        assert(dec(m).last() == digit_char(m));
    } else {
        lemma_accum_dec(m / 10, neg);
        assert(dec(m).drop_last() == dec(m / 10));
        assert(dec(m).last() == digit_char(m % 10));
        assert((m / 10) * 10 + m % 10 == m);
    }
}

/// A failure in a prefix of the digits is the failure of the whole.
proof fn lemma_accum_prefix_err(d: Seq<char>, k: int, neg: bool)
    requires
        0 <= k <= d.len(),
    ensures
        accum_i64(d.take(k), neg) is Err ==> accum_i64(d, neg) == accum_i64(d.take(k), neg),
    decreases d.len() - k,
{
    if k < d.len() {
        lemma_accum_prefix_err(d, k + 1, neg);
        assert(d.take(k + 1).drop_last() == d.take(k));
    } else {
        assert(d.take(k) == d);
    }
}

// ─── Hexadecimal numbers ─────────────────────────

/// The lowercase hexadecimal digit for `d < 16`.
pub open spec fn hex_digit_char(d: nat) -> char {
    if d < 10 {
        digit_char(d)
    } else if d == 10 {
        'a'
    } else if d == 11 {
        'b'
    } else if d == 12 {
        'c'
    } else if d == 13 {
        'd'
    } else if d == 14 {
        'e'
    } else {
        'f'
    }
}

/// Lowercase hexadecimal representation of `n` without leading zeros
/// (`{:x}` formatting).
pub open spec fn hex(n: nat) -> Seq<char>
    decreases n,
{
    if n < 16 {
        seq![hex_digit_char(n)]
    } else {
        hex(n / 16).push(hex_digit_char(n % 16))
    }
}

fn hex_digit(d: u128) -> (c: char)
    requires
        d < 16,
    ensures
        c == hex_digit_char(d as nat),
{
    if d < 10 {
        digit(d as u64)
    } else if d == 10 {
        'a'
    } else if d == 11 {
        'b'
    } else if d == 12 {
        'c'
    } else if d == 13 {
        'd'
    } else if d == 14 {
        'e'
    } else {
        'f'
    }
}

/// Hexadecimal digits of `n`.
pub fn hex_chars(n: u128) -> (r: Vec<char>)
    ensures
        r@ == hex(n as nat),
    decreases n,
{
    if n < 16 {
        vec![hex_digit(n)]
    } else {
        let mut v = hex_chars(n / 16);
        v.push(hex_digit(n % 16));
        v
    }
}

/// `n` formatted with `{:0w$x}`.
pub fn hex_padded(n: u128, w: usize) -> (r: String)
    ensures
        r@ == zero_pad(hex(n as nat), w as nat),
{
    let d = hex_chars(n);
    let mut out = String::new();
    if d.len() < w {
        let k = w - d.len();
        let mut i: usize = 0;
        while i < k
            invariant
                i <= k,
                out@ == Seq::new(i as nat, |j: int| '0'),
            decreases k - i,
        {
            push_char(&mut out, '0');
            assert(out@ =~= Seq::new((i + 1) as nat, |j: int| '0'));
            i += 1;
        }
    }
    push_chars(&mut out, d.as_slice());
    assert(out@ =~= zero_pad(hex(n as nat), w as nat));
    out
}

// ─── UTF-8 byte lengths ──────────────────────────

/// Number of bytes of `c` in UTF-8.
pub open spec fn char_utf8_len(c: char) -> nat {
    let u = c as u32;
    if u < 0x80 {
        1
    } else if u < 0x800 {
        2
    } else if u < 0x10000 {
        3
    } else {
        4
    }
}

/// Number of bytes of `s` in UTF-8 (`str::len`).
pub open spec fn utf8_len(s: Seq<char>) -> nat
    decreases s.len(),
{
    if s.len() == 0 {
        0
    } else {
        utf8_len(s.drop_last()) + char_utf8_len(s.last())
    }
}

/// `&s[..min(n, s.len())]` in bytes: the characters within the first `n`
/// bytes, or `None` when byte `n` falls inside a character (a slicing panic).
pub open spec fn cut_bytes(s: Seq<char>, n: nat) -> Option<Seq<char>>
    decreases s.len(),
{
    if s.len() == 0 || n == 0 {
        Some(Seq::empty())
    } else if char_utf8_len(s[0]) > n {
        None
    } else {
        match cut_bytes(s.skip(1), (n - char_utf8_len(s[0])) as nat) {
            Some(t) => Some(seq![s[0]] + t),
            None => None,
        }
    }
}

/// Number of UTF-8 bytes of `c`.
pub fn char_len_utf8(c: char) -> (r: usize)
    ensures
        r == char_utf8_len(c),
{
    let u = c as u32;
    if u < 0x80 {
        1
    } else if u < 0x800 {
        2
    } else if u < 0x10000 {
        3
    } else {
        4
    }
}

/// The characters of `s` within its first `n` bytes (see [`cut_bytes`]).
pub fn cut_bytes_exec(s: &[char], n: usize) -> (r: Option<Vec<char>>)
    ensures
        match r {
            Some(v) => cut_bytes(s@, n as nat) == Some(v@),
            None => cut_bytes(s@, n as nat) is None,
        },
{
    let mut i: usize = 0;
    let mut left: usize = n;
    assert(s@.skip(0) == s@);
    while i < s.len() && left > 0
        invariant
            i <= s.len(),
            left <= n,
            cut_bytes(s@, n as nat) == (match cut_bytes(s@.skip(i as int), left as nat) {
                Some(t) => Some(s@.take(i as int) + t),
                None => None::<Seq<char>>,
            }),
        decreases s.len() - i,
    {
        let w = char_len_utf8(s[i]);
        assert(s@.skip(i as int)[0] == s@[i as int]);
        if w > left {
            return None;
        }
        assert(s@.skip(i as int).skip(1) == s@.skip(i + 1));
        assert(s@.take(i + 1) == s@.take(i as int) + seq![s@[i as int]]);
        proof {
            let ghost x = cut_bytes(s@.skip(i + 1), (left - w) as nat);
            if let Some(t) = x {
                assert(s@.take(i as int) + (seq![s@[i as int]] + t) =~= s@.take(i + 1) + t);
            }
        }
        left = left - w;
        i += 1;
    }
    let mut out = Vec::new();
    push_range(&mut out, s, 0, i);
    assert(s@.subrange(0, i as int) == s@.take(i as int));
    assert(s@.take(i as int) + Seq::<char>::empty() == s@.take(i as int));
    Some(out)
}

// ─── Debug rendering ─────────────────────────────

/// The `{:?}` rendering of a string: quoted, with Rust's escapes.
pub uninterp spec fn debug_str(s: Seq<char>) -> Seq<char>;

/// Renders a string as `{:?}` does (`<str as Debug>::fmt`).
#[verifier::external_body]
pub(crate) fn debug_quote(s: &str) -> (r: String)
    ensures
        r@ == debug_str(s@),
{
    format!("{:?}", s)
}

} // verus!
