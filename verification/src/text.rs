//! Character-sequence utilities shared by the parsers.
//!
//! Every executable function here works on a `Vec<char>` (the `char` view of
//! a `&str`) and a half-open index range `[lo, hi)` into it, and is specified
//! by a spec function over `Seq<char>` that says what the corresponding
//! `str` method of std computes.

use vstd::prelude::*;
use vstd::string::StrSliceExecFns;
use vstd::string::StringExecFns;

verus! {

/// Unicode `White_Space`, the property that `char::is_whitespace` tests.
pub open spec fn is_ws(c: char) -> bool {
    ||| ('\u{9}' <= c && c <= '\u{d}')
    ||| c == ' '
    ||| c == '\u{85}'
    ||| c == '\u{a0}'
    ||| c == '\u{1680}'
    ||| ('\u{2000}' <= c && c <= '\u{200a}')
    ||| c == '\u{2028}'
    ||| c == '\u{2029}'
    ||| c == '\u{202f}'
    ||| c == '\u{205f}'
    ||| c == '\u{3000}'
}

/// `char::is_whitespace`.
pub fn is_whitespace(c: char) -> (b: bool)
    ensures
        b == is_ws(c),
{
    ('\u{9}' <= c && c <= '\u{d}') || c == ' ' || c == '\u{85}' || c == '\u{a0}' || c
        == '\u{1680}' || ('\u{2000}' <= c && c <= '\u{200a}') || c == '\u{2028}' || c
        == '\u{2029}' || c == '\u{202f}' || c == '\u{205f}' || c == '\u{3000}'
}

/// `str::trim_start`: the sequence without its leading whitespace.
pub open spec fn trim_start(s: Seq<char>) -> Seq<char>
    decreases s.len(),
{
    if s.len() > 0 && is_ws(s[0]) {
        trim_start(s.drop_first())
    } else {
        s
    }
}

/// `str::trim_end`: the sequence without its trailing whitespace.
pub open spec fn trim_end(s: Seq<char>) -> Seq<char>
    decreases s.len(),
{
    if s.len() > 0 && is_ws(s.last()) {
        trim_end(s.drop_last())
    } else {
        s
    }
}

/// `str::trim`.
pub open spec fn trim(s: Seq<char>) -> Seq<char> {
    trim_end(trim_start(s))
}

/// The `char`s of a string, as a vector.
pub fn chars_of(s: &str) -> (v: Vec<char>)
    ensures
        v@ == s@,
{
    let n = s.unicode_len();
    let mut v: Vec<char> = Vec::new();
    let mut i: usize = 0;
    while i < n
        invariant
            n == s@.len(),
            i <= n,
            v@ == s@.subrange(0, i as int),
        decreases n - i,
    {
        let c = s.get_char(i);
        v.push(c);
        i = i + 1;
        assert(v@ =~= s@.subrange(0, i as int));
    }
    assert(v@ =~= s@);
    v
}

/// The string made of the characters `from..to` of `s`.
pub fn substring(s: &str, from: usize, to: usize) -> (r: String)
    requires
        from <= to <= s@.len(),
    ensures
        r@ == s@.subrange(from as int, to as int),
{
    String::from_str(s.substring_char(from, to))
}

/// Range form of `trim`: the bounds of the trimmed part of `v[lo..hi]`.
pub fn trim_range(v: &Vec<char>, lo: usize, hi: usize) -> (r: (usize, usize))
    requires
        lo <= hi <= v@.len(),
    ensures
        lo <= r.0 <= r.1 <= hi,
        v@.subrange(r.0 as int, r.1 as int) == trim(v@.subrange(lo as int, hi as int)),
{
    let mut i = lo;
    while i < hi && is_whitespace(v[i])
        invariant
            lo <= i <= hi <= v@.len(),
            trim_start(v@.subrange(lo as int, hi as int)) == trim_start(
                v@.subrange(i as int, hi as int),
            ),
        decreases hi - i,
    {
        assert(v@.subrange(i as int, hi as int).drop_first() =~= v@.subrange(
            i + 1,
            hi as int,
        ));
        i = i + 1;
    }
    assert(trim_start(v@.subrange(i as int, hi as int)) == v@.subrange(i as int, hi as int));
    let mut j = hi;
    while j > i && is_whitespace(v[j - 1])
        invariant
            lo <= i <= j <= hi <= v@.len(),
            trim_end(v@.subrange(i as int, hi as int)) == trim_end(
                v@.subrange(i as int, j as int),
            ),
        decreases j - i,
    {
        assert(v@.subrange(i as int, j as int).drop_last() =~= v@.subrange(
            i as int,
            j - 1,
        ));
        j = j - 1;
    }
    (i, j)
}


/// `pat` occurs in `s` starting at index `i`.
pub open spec fn occurs_at<A>(s: Seq<A>, pat: Seq<A>, i: int) -> bool {
    0 <= i && i + pat.len() <= s.len() && s.subrange(i, i + pat.len()) == pat
}

/// The first index at or after `i` where `pat` occurs in `s`.
pub open spec fn find_from<A>(s: Seq<A>, pat: Seq<A>, i: int) -> Option<int>
    decreases s.len() + 1 - i,
{
    if i < 0 || i + pat.len() > s.len() {
        None
    } else if occurs_at(s, pat, i) {
        Some(i)
    } else {
        find_from(s, pat, i + 1)
    }
}

/// `str::find`: the first index where `pat` occurs in `s`.
pub open spec fn find<A>(s: Seq<A>, pat: Seq<A>) -> Option<int> {
    find_from(s, pat, 0)
}

/// `str::starts_with`.
pub open spec fn starts_with<A>(s: Seq<A>, pat: Seq<A>) -> bool {
    pat.len() <= s.len() && s.take(pat.len() as int) == pat
}

/// `str::contains`.
pub open spec fn contains<A>(s: Seq<A>, pat: Seq<A>) -> bool {
    find(s, pat) is Some
}

/// What `find_from` returns is an occurrence, and no earlier one exists.
pub proof fn lemma_find_from<A>(s: Seq<A>, pat: Seq<A>, i: int)
    requires
        0 <= i,
    ensures
        match find_from(s, pat, i) {
            Some(k) => i <= k && occurs_at(s, pat, k) && forall|j: int|
                i <= j < k ==> !occurs_at(s, pat, j),
            None => forall|j: int| i <= j ==> !occurs_at(s, pat, j),
        },
    decreases s.len() + 1 - i,
{
    if i + pat.len() > s.len() {
    } else if occurs_at(s, pat, i) {
    } else {
        lemma_find_from(s, pat, i + 1);
    }
}

/// The sequences that the ranges `r` select from `s`.
pub open spec fn pieces(s: Seq<char>, r: Seq<(usize, usize)>) -> Seq<Seq<char>> {
    Seq::new(r.len(), |k: int| s.subrange(r[k].0 as int, r[k].1 as int))
}

/// All ranges lie within `[lo, hi)` and are well formed.
pub open spec fn ranges_within(r: Seq<(usize, usize)>, lo: int, hi: int) -> bool {
    forall|k: int| 0 <= k < r.len() ==> lo <= #[trigger] r[k].0 <= r[k].1 <= hi
}

/// `v[i..i + pat.len()]` equals `pat`.
pub fn matches_at(v: &Vec<char>, i: usize, hi: usize, pat: &Vec<char>) -> (b: bool)
    requires
        i <= hi <= v@.len(),
    ensures
        b == (i + pat@.len() <= hi && v@.subrange(i as int, i + pat@.len()) == pat@),
{
    if pat.len() > hi - i {
        return false;
    }
    let mut k: usize = 0;
    while k < pat.len()
        invariant
            i + pat@.len() <= hi <= v@.len(),
            k <= pat@.len(),
            forall|j: int| 0 <= j < k ==> v@[i + j] == pat@[j],
        decreases pat@.len() - k,
    {
        if v[i + k] != pat[k] {
            assert(v@.subrange(i as int, i + pat@.len())[k as int] != pat@[k as int]);
            return false;
        }
        k = k + 1;
    }
    assert(v@.subrange(i as int, i + pat@.len()) =~= pat@);
    true
}

/// Range form of `str::find`: the first occurrence of `pat` in `v[lo..hi]`,
/// as an index relative to `lo`.
pub fn find_in(v: &Vec<char>, lo: usize, hi: usize, pat: &Vec<char>) -> (r: Option<usize>)
    requires
        lo <= hi <= v@.len(),
    ensures
        match r {
            Some(k) => find(v@.subrange(lo as int, hi as int), pat@) == Some(k as int),
            None => find(v@.subrange(lo as int, hi as int), pat@) is None,
        },
{
    let ghost sub = v@.subrange(lo as int, hi as int);
    let mut i = lo;
    while i <= hi
        invariant
            lo <= i,
            hi <= v@.len(),
            sub == v@.subrange(lo as int, hi as int),
            i <= hi + 1,
            find(sub, pat@) == find_from(sub, pat@, i - lo),
        decreases hi + 1 - i,
    {
        let m = matches_at(v, i, hi, pat);
        proof {
            if pat@.len() == 0 {
                assert(v@.subrange(i as int, i as int) =~= pat@);
                assert(sub.subrange(i - lo, i - lo) =~= pat@);
            }
            if i + pat@.len() <= hi {
                assert(sub.subrange(i - lo, i - lo + pat@.len()) =~= v@.subrange(
                    i as int,
                    i + pat@.len(),
                ));
            }
        }
        if m {
            return Some(i - lo);
        }
        if i == hi {
            assert(find_from(sub, pat@, i - lo) is None);
            return None;
        }
        i = i + 1;
    }
    None
}

/// Range form of `str::starts_with`.
pub fn starts_with_in(v: &Vec<char>, lo: usize, hi: usize, pat: &Vec<char>) -> (b: bool)
    requires
        lo <= hi <= v@.len(),
    ensures
        b == starts_with(v@.subrange(lo as int, hi as int), pat@),
{
    let b = matches_at(v, lo, hi, pat);
    proof {
        if pat@.len() <= hi - lo {
            assert(v@.subrange(lo as int, hi as int).take(pat@.len() as int) =~= v@.subrange(
                lo as int,
                lo + pat@.len(),
            ));
        }
    }
    b
}


/// An ASCII decimal digit.
pub open spec fn is_digit(c: char) -> bool {
    '0' <= c && c <= '9'
}

/// The value of an ASCII digit.
pub open spec fn digit_val(c: char) -> nat {
    if is_digit(c) {
        (c as int - '0' as int) as nat
    } else {
        0
    }
}

/// The decimal value of a string of digits.
pub open spec fn digits_value(s: Seq<char>) -> nat
    decreases s.len(),
{
    if s.len() == 0 {
        0
    } else {
        digits_value(s.drop_last()) * 10 + digit_val(s.last())
    }
}

/// Every character is an ASCII digit.
pub open spec fn all_digits(s: Seq<char>) -> bool {
    forall|i: int| 0 <= i < s.len() ==> is_digit(#[trigger] s[i])
}

/// `str::parse::<u32>`: an optional `+` followed by at least one ASCII digit,
/// whose value fits in a `u32`.
pub open spec fn parse_u32_spec(s: Seq<char>) -> Option<u32> {
    let d = if s.len() > 0 && s[0] == '+' {
        s.drop_first()
    } else {
        s
    };
    if d.len() > 0 && all_digits(d) && digits_value(d) <= u32::MAX {
        Some(digits_value(d) as u32)
    } else {
        None
    }
}

/// The value of a digit string is at least the value of any prefix.
pub proof fn lemma_digits_value_prefix(s: Seq<char>, k: int)
    requires
        0 <= k <= s.len(),
    ensures
        digits_value(s.take(k)) <= digits_value(s),
    decreases s.len(),
{
    if k == s.len() {
        assert(s.take(k) =~= s);
    } else {
        assert(s.drop_last().take(k) =~= s.take(k));
        lemma_digits_value_prefix(s.drop_last(), k);
    }
}

/// Range form of `str::parse::<u32>` on `v[lo..hi]`.
pub fn parse_u32_in(v: &Vec<char>, lo: usize, hi: usize) -> (r: Option<u32>)
    requires
        lo <= hi <= v@.len(),
    ensures
        r == parse_u32_spec(v@.subrange(lo as int, hi as int)),
{
    let ghost s = v@.subrange(lo as int, hi as int);
    let mut start = lo;
    if lo < hi && v[lo] == '+' {
        start = lo + 1;
    }
    let ghost d = v@.subrange(start as int, hi as int);
    assert(d =~= (if s.len() > 0 && s[0] == '+' { s.drop_first() } else { s }));
    if start == hi {
        return None;
    }
    let mut acc: u64 = 0;
    let mut i = start;
    while i < hi
        invariant
            lo <= start <= i <= hi <= v@.len(),
            d == v@.subrange(start as int, hi as int),
            s == v@.subrange(lo as int, hi as int),
            d.len() > 0,
            d =~= (if s.len() > 0 && s[0] == '+' { s.drop_first() } else { s }),
            acc == digits_value(v@.subrange(start as int, i as int)),
            acc <= u32::MAX,
            all_digits(v@.subrange(start as int, i as int)),
        decreases hi - i,
    {
        let c = v[i];
        if !('0' <= c && c <= '9') {
            assert(d[i - start] == c);
            return None;
        }
        let dv = (c as u32 - '0' as u32) as u64;
        assert(v@.subrange(start as int, i + 1).drop_last() =~= v@.subrange(
            start as int,
            i as int,
        ));
        assert(v@.subrange(start as int, i + 1).last() == c);
        acc = acc * 10 + dv;
        i = i + 1;
        assert(all_digits(v@.subrange(start as int, i as int)));
        if acc > 4294967295 {
            proof {
                assert(d.take(i - start) =~= v@.subrange(start as int, i as int));
                lemma_digits_value_prefix(d, i - start);
            }
            return None;
        }
    }
    assert(v@.subrange(start as int, i as int) =~= d);
    Some(acc as u32)
}


/// `str::split(c)`: the pieces of `s` between occurrences of `c`.
pub open spec fn split_char(s: Seq<char>, c: char) -> Seq<Seq<char>>
    decreases s.len(),
{
    if s.len() == 0 {
        seq![Seq::empty()]
    } else {
        let p = split_char(s.drop_last(), c);
        if s.last() == c {
            p.push(Seq::empty())
        } else {
            p.update(p.len() - 1, p.last().push(s.last()))
        }
    }
}

/// Splitting always gives at least one piece.
pub proof fn lemma_split_char_len(s: Seq<char>, c: char)
    ensures
        split_char(s, c).len() >= 1,
    decreases s.len(),
{
    if s.len() > 0 {
        lemma_split_char_len(s.drop_last(), c);
    }
}

/// Range form of `str::split(c)` on `v[lo..hi]`.
pub fn split_char_in(v: &Vec<char>, lo: usize, hi: usize, c: char) -> (r: Vec<(usize, usize)>)
    requires
        lo <= hi <= v@.len(),
    ensures
        ranges_within(r@, lo as int, hi as int),
        pieces(v@, r@) == split_char(v@.subrange(lo as int, hi as int), c),
{
    let mut parts: Vec<(usize, usize)> = Vec::new();
    let mut start = lo;
    let mut i = lo;
    assert(v@.subrange(lo as int, lo as int) =~= Seq::<char>::empty());
    assert(pieces(v@, parts@).push(v@.subrange(start as int, i as int)) =~= split_char(
        v@.subrange(lo as int, i as int),
        c,
    ));
    while i < hi
        invariant
            lo <= start <= i <= hi <= v@.len(),
            ranges_within(parts@, lo as int, i as int),
            pieces(v@, parts@).push(v@.subrange(start as int, i as int)) == split_char(
                v@.subrange(lo as int, i as int),
                c,
            ),
        decreases hi - i,
    {
        let ghost old_parts = parts@;
        let ghost sub = v@.subrange(lo as int, i + 1);
        assert(sub.drop_last() =~= v@.subrange(lo as int, i as int));
        assert(sub.last() == v@[i as int]);
        proof {
            lemma_split_char_len(sub.drop_last(), c);
        }
        if v[i] == c {
            parts.push((start, i));
            assert(ranges_within(parts@, lo as int, i + 1)) by {
                assert forall|k: int| 0 <= k < parts@.len() implies lo <= #[trigger] parts@[k].0
                    <= parts@[k].1 <= i + 1 by {
                    if k < old_parts.len() {
                        assert(parts@[k] == old_parts[k]);
                    }
                }
            }
            start = i + 1;
            assert(pieces(v@, parts@) =~= pieces(v@, old_parts).push(
                v@.subrange(parts@.last().0 as int, i as int),
            ));
            assert(v@.subrange(start as int, i + 1) =~= Seq::<char>::empty());
        } else {
            assert(v@.subrange(start as int, i + 1) =~= v@.subrange(start as int, i as int).push(
                v@[i as int],
            ));
        }
        i = i + 1;
        assert(pieces(v@, parts@).push(v@.subrange(start as int, i as int)) =~= split_char(
            v@.subrange(lo as int, i as int),
            c,
        ));
    }
    let ghost old_parts = parts@;
    parts.push((start, hi));
    assert(pieces(v@, parts@) =~= pieces(v@, old_parts).push(
        v@.subrange(start as int, hi as int),
    ));
    parts
}

/// `str::split_whitespace`: the maximal runs of non-whitespace characters.
pub open spec fn words(s: Seq<char>) -> Seq<Seq<char>>
    decreases s.len(),
{
    if s.len() == 0 {
        Seq::empty()
    } else {
        let p = words(s.drop_last());
        let c = s.last();
        if is_ws(c) {
            p
        } else if s.len() >= 2 && !is_ws(s[s.len() - 2]) {
            p.update(p.len() - 1, p.last().push(c))
        } else {
            p.push(seq![c])
        }
    }
}

/// Range form of `str::split_whitespace` on `v[lo..hi]`.
pub fn words_in(v: &Vec<char>, lo: usize, hi: usize) -> (r: Vec<(usize, usize)>)
    requires
        lo <= hi <= v@.len(),
    ensures
        ranges_within(r@, lo as int, hi as int),
        pieces(v@, r@) == words(v@.subrange(lo as int, hi as int)),
{
    let mut parts: Vec<(usize, usize)> = Vec::new();
    let mut i = lo;
    assert(pieces(v@, parts@) =~= words(v@.subrange(lo as int, i as int)));
    while i < hi
        invariant
            lo <= i <= hi <= v@.len(),
            ranges_within(parts@, lo as int, i as int),
            pieces(v@, parts@) == words(v@.subrange(lo as int, i as int)),
            (i > lo && !is_ws(v@[i - 1])) ==> parts@.len() > 0 && parts@.last().1 == i,
        decreases hi - i,
    {
        let ghost old_parts = parts@;
        let ghost sub = v@.subrange(lo as int, i + 1);
        assert(sub.drop_last() =~= v@.subrange(lo as int, i as int));
        assert(sub.last() == v@[i as int]);
        if is_whitespace(v[i]) {
        } else if i > lo && !is_whitespace(v[i - 1]) {
            assert(sub[sub.len() - 2] == v@[i - 1]);
            let last = parts.len() - 1;
            let (a, _) = parts[last];
            parts.set(last, (a, i + 1));
            assert(v@.subrange(a as int, i + 1) =~= v@.subrange(a as int, i as int).push(
                v@[i as int],
            ));
            assert(pieces(v@, parts@) =~= pieces(v@, old_parts).update(
                last as int,
                pieces(v@, old_parts).last().push(v@[i as int]),
            ));
        } else {
            proof {
                if i > lo {
                    assert(sub[sub.len() - 2] == v@[i - 1]);
                }
            }
            parts.push((i, i + 1));
            assert(v@.subrange(i as int, i + 1) =~= seq![v@[i as int]]);
            assert(pieces(v@, parts@) =~= pieces(v@, old_parts).push(seq![v@[i as int]]));
        }
        i = i + 1;
    }
    parts
}

/// A line of `str::lines` taken from a piece that ended in a newline:
/// without a carriage return before that newline.
pub open spec fn strip_cr(s: Seq<char>) -> Seq<char> {
    if s.len() > 0 && s.last() == '\r' {
        s.drop_last()
    } else {
        s
    }
}

/// `str::lines`: lines end at `\n` or `\r\n`; the last line needs no
/// ending, and an empty last piece is no line.
pub open spec fn lines(s: Seq<char>) -> Seq<Seq<char>> {
    let p = split_char(s, '\n');
    let ended = Seq::new((p.len() - 1) as nat, |k: int| strip_cr(p[k]));
    if p.last().len() == 0 {
        ended
    } else {
        ended.push(p.last())
    }
}

/// The ranges of the lines of `v`, as `str::lines` gives them.
pub fn lines_in(v: &Vec<char>) -> (r: Vec<(usize, usize)>)
    ensures
        ranges_within(r@, 0, v@.len() as int),
        pieces(v@, r@) == lines(v@),
{
    let parts = split_char_in(v, 0, v.len(), '\n');
    assert(v@.subrange(0, v@.len() as int) =~= v@);
    proof {
        lemma_split_char_len(v@, '\n');
    }
    let ghost p = split_char(v@, '\n');
    let count = parts.len() - 1;
    let mut out: Vec<(usize, usize)> = Vec::new();
    let mut k: usize = 0;
    while k < count
        invariant
            count == parts@.len() - 1,
            p == pieces(v@, parts@),
            ranges_within(parts@, 0, v@.len() as int),
            k <= count,
            ranges_within(out@, 0, v@.len() as int),
            pieces(v@, out@) =~= Seq::new(k as nat, |j: int| strip_cr(p[j])),
        decreases count - k,
    {
        let (a, b) = parts[k];
        assert(p[k as int] == v@.subrange(a as int, b as int));
        let ghost prev = out@;
        if b > a && v[b - 1] == '\r' {
            out.push((a, b - 1));
            assert(v@.subrange(a as int, b - 1) =~= v@.subrange(a as int, b as int).drop_last());
        } else {
            out.push((a, b));
        }
        assert(pieces(v@, out@) =~= pieces(v@, prev).push(strip_cr(p[k as int])));
        k = k + 1;
        assert(pieces(v@, out@) =~= Seq::new(k as nat, |j: int| strip_cr(p[j])));
    }
    let (a, b) = parts[count];
    assert(p.last() == v@.subrange(a as int, b as int));
    if b > a {
        let ghost prev = out@;
        out.push((a, b));
        assert(pieces(v@, out@) =~= pieces(v@, prev).push(p.last()));
    }
    out
}

/// Characters of two strings are the same.
pub fn str_eq(a: &str, b: &str) -> (r: bool)
    ensures
        r == (a@ == b@),
{
    let n = a.unicode_len();
    if n != b.unicode_len() {
        return false;
    }
    let mut i: usize = 0;
    while i < n
        invariant
            n == a@.len() == b@.len(),
            i <= n,
            forall|j: int| 0 <= j < i ==> a@[j] == b@[j],
        decreases n - i,
    {
        if a.get_char(i) != b.get_char(i) {
            return false;
        }
        i = i + 1;
    }
    assert(a@ =~= b@);
    true
}

/// `v[lo..hi]` equals the characters of `s`.
pub fn range_eq_str(v: &Vec<char>, lo: usize, hi: usize, s: &str) -> (r: bool)
    requires
        lo <= hi <= v@.len(),
    ensures
        r == (v@.subrange(lo as int, hi as int) == s@),
{
    let n = s.unicode_len();
    if n != hi - lo {
        return false;
    }
    let mut i: usize = 0;
    while i < n
        invariant
            n == s@.len() == hi - lo,
            lo <= hi <= v@.len(),
            i <= n,
            forall|j: int| 0 <= j < i ==> v@[lo + j] == s@[j],
        decreases n - i,
    {
        if v[lo + i] != s.get_char(i) {
            assert(v@.subrange(lo as int, hi as int)[i as int] != s@[i as int]);
            return false;
        }
        i = i + 1;
    }
    assert(v@.subrange(lo as int, hi as int) =~= s@);
    true
}

/// The first index at or after `i` where `ws` holds `x`.
pub open spec fn index_from(ws: Seq<Seq<char>>, x: Seq<char>, i: int) -> Option<int>
    decreases ws.len() - i,
{
    if i < 0 || i >= ws.len() {
        None
    } else if ws[i] == x {
        Some(i)
    } else {
        index_from(ws, x, i + 1)
    }
}


/// The character of a decimal digit.
pub open spec fn digit_char(d: nat) -> char {
    if d == 0 {
        '0'
    } else if d == 1 {
        '1'
    } else if d == 2 {
        '2'
    } else if d == 3 {
        '3'
    } else if d == 4 {
        '4'
    } else if d == 5 {
        '5'
    } else if d == 6 {
        '6'
    } else if d == 7 {
        '7'
    } else if d == 8 {
        '8'
    } else {
        '9'
    }
}

/// The decimal representation of `n`, as `Display` writes an unsigned
/// integer.
pub open spec fn decimal(n: nat) -> Seq<char>
    decreases n,
{
    if n < 10 {
        seq![digit_char(n)]
    } else {
        decimal(n / 10).push(digit_char(n % 10))
    }
}

/// The decimal representation of `n`, as `Display` writes a signed integer.
pub open spec fn signed_decimal(n: int) -> Seq<char> {
    if n < 0 {
        seq!['-'] + decimal((-n) as nat)
    } else {
        decimal(n as nat)
    }
}

fn digit_str(d: u64) -> (r: &'static str)
    requires
        d < 10,
    ensures
        r@ == seq![digit_char(d as nat)],
{
    let r = if d == 0 {
        "0"
    } else if d == 1 {
        "1"
    } else if d == 2 {
        "2"
    } else if d == 3 {
        "3"
    } else if d == 4 {
        "4"
    } else if d == 5 {
        "5"
    } else if d == 6 {
        "6"
    } else if d == 7 {
        "7"
    } else if d == 8 {
        "8"
    } else {
        "9"
    };
    proof {
        reveal_strlit("0");
        reveal_strlit("1");
        reveal_strlit("2");
        reveal_strlit("3");
        reveal_strlit("4");
        reveal_strlit("5");
        reveal_strlit("6");
        reveal_strlit("7");
        reveal_strlit("8");
        reveal_strlit("9");
    }
    assert(r@ =~= seq![digit_char(d as nat)]);
    r
}

/// `n.to_string()` for an unsigned integer.
pub fn u64_to_string(n: u64) -> (r: String)
    ensures
        r@ == decimal(n as nat),
    decreases n,
{
    if n < 10 {
        String::from_str(digit_str(n))
    } else {
        let mut s = u64_to_string(n / 10);
        s.append(digit_str(n % 10));
        s
    }
}

/// `n.to_string()` for a signed integer.
pub fn i64_to_string(n: i64) -> (r: String)
    ensures
        r@ == signed_decimal(n as int),
{
    if n < 0 {
        let magnitude: u64 = (0i128 - n as i128) as u64;
        let mut s = String::from_str("-");
        let digits = u64_to_string(magnitude);
        s.append(digits.as_str());
        proof {
            reveal_strlit("-");
        }
        s
    } else {
        u64_to_string(n as u64)
    }
}

} // verus!
