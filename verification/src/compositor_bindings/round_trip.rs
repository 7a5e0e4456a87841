//! The config lines suggested for missing bindings are found again by the
//! scanners: each line that is not a comment parses back to the action it
//! was written for.

use vstd::prelude::*;
use vstd::utf8::{
    encode_utf8, encode_utf8_decode_utf8, encode_utf8_valid_utf8, is_ascii_chars, is_ascii_chars_encode_utf8, is_char_boundary,
    is_char_boundary_iff_not_is_continuation_byte,
};

use crate::compositor_bindings::{
    dominant_spec, has_action, suggest_missing_spec, Binding, SuggestionView, CANCEL_PURPOSE,
    MEETING_PURPOSE, MEETING_START_PURPOSE, MEETING_STOP_PURPOSE, PTT_PURPOSE, START_PURPOSE,
    STOP_PURPOSE, TOGGLE_ALT_PURPOSE, TOGGLE_PURPOSE,
    hyprland_scan_line, sway_scan_line,
    alphanumeric, ascii_lower, command_action, command_in_domain, lowercase, trim_non_alnum,
    voxtype_bytes, voxtype_offset_in,
    bind_chars, drop_flags, hyprland_command, join_words, known_action, niri_line_spec, quote_words_spec, quoted,
    render_lines_spec, spawn_chars, sway_command, voxtype_chars, BindShape, Compositor,
};
use crate::text::{
    contains, find, find_from, index_from, is_ws, lemma_find_from, occurs_at, split_char, starts_with,
    trim, trim_end, trim_start, words,
};

verus! {

/// `c` does not occur in `s[a..b)`.
pub open spec fn absent(s: Seq<char>, c: char, a: int, b: int) -> bool {
    forall|j: int| a <= j < b ==> s[j] != c
}

/// Where a pattern occurs with no earlier occurrence of its first
/// character, `find` gives that place.
proof fn lemma_find_at<A>(s: Seq<A>, pat: Seq<A>, k: int)
    requires
        0 <= k,
        pat.len() > 0,
        occurs_at(s, pat, k),
        forall|j: int| 0 <= j < k ==> s[j] != pat[0],
    ensures
        find(s, pat) == Some(k),
{
    lemma_find_from(s, pat, 0);
    match find_from(s, pat, 0) {
        Some(k2) => {
            if k2 < k {
                assert(s.subrange(k2, k2 + pat.len())[0] == s[k2]);
            }
        },
        None => {},
    }
}

/// A pattern that occurs is contained.
proof fn lemma_contains_at<A>(s: Seq<A>, pat: Seq<A>, k: int)
    requires
        occurs_at(s, pat, k),
    ensures
        contains(s, pat),
{
    lemma_find_from(s, pat, 0);
}

/// Text without quotes holds no quoted arguments.
proof fn lemma_quoted_none(s: Seq<char>)
    requires
        absent(s, '"', 0, s.len() as int),
    ensures
        quoted(s) == Seq::<Seq<char>>::empty(),
{
    lemma_find_from(s, seq!['"'], 0);
    if find(s, seq!['"']) is Some {
        let k = find(s, seq!['"'])->0;
        assert(s.subrange(k, k + 1)[0] == s[k]);
    }
}

/// The first quoted argument of `p + "w" + r`, where `p` and `w` hold no
/// quote, is `w`; the rest come from `r`.
proof fn lemma_quoted_step(p: Seq<char>, w: Seq<char>, r: Seq<char>)
    requires
        absent(p, '"', 0, p.len() as int),
        absent(w, '"', 0, w.len() as int),
    ensures
        quoted(p + seq!['"'] + w + seq!['"'] + r) == seq![w] + quoted(r),
{
    let s = p + seq!['"'] + w + seq!['"'] + r;
    let q = seq!['"'];
    let m = p.len() as int;
    let k = w.len() as int;
    assert(s.subrange(m, m + 1) =~= q);
    lemma_find_at(s, q, m);
    let after = s.skip(m + 1);
    assert(after =~= w + seq!['"'] + r);
    assert(after.subrange(k, k + 1) =~= q);
    lemma_find_at(after, q, k);
    assert(after.take(k) =~= w);
    assert(after.skip(k + 1) =~= r);
}

/// The Niri line `keys { spawn "voxtype" "w1" "w2"; }` binds `keys` to the
/// action `w1 w2`, when that is a known action.
#[verifier::spinoff_prover]
proof fn lemma_niri_line(keys: Seq<char>, w1: Seq<char>, w2: Seq<char>)
    requires
        keys.len() > 0,
        !is_ws(keys[0]),
        !is_ws(keys.last()),
        keys[0] != '/',
        absent(keys, '{', 0, keys.len() as int),
        absent(w1, '"', 0, w1.len() as int),
        absent(w2, '"', 0, w2.len() as int),
        known_action(w1 + seq![' '] + w2),
    ensures
        niri_line_spec(
            keys + " { spawn \"voxtype\" \""@ + w1 + "\" \""@ + w2 + "\"; }"@,
        ) == Some((keys, w1 + seq![' '] + w2)),
{
    reveal_strlit(" { spawn \"voxtype\" \"");
    reveal_strlit("\" \"");
    reveal_strlit("\"; }");
    let tail = seq![' ', '{', ' ', 's', 'p', 'a', 'w', 'n', ' ', '"', 'v', 'o', 'x', 't', 'y', 'p', 'e', '"', ' ', '"'];
    assert(" { spawn \"voxtype\" \""@ =~= tail);
    let l = keys + " { spawn \"voxtype\" \""@ + w1 + "\" \""@ + w2 + "\"; }"@;
    let n = keys.len() as int;
    // trim leaves the line as it is
    assert(!is_ws(l[0]));
    assert(trim_start(l) == l);
    assert(l.last() == '}');
    assert(trim_end(l) == l);
    assert(trim(l) == l);
    assert(!starts_with(l, seq!['/', '/'])) by {
        assert(l.take(2)[0] == l[0]);
    }
    assert(l.subrange(n + 10, n + 17) =~= voxtype_chars());
    lemma_contains_at(l, voxtype_chars(), n + 10);
    assert(l.subrange(n + 3, n + 8) =~= spawn_chars());
    lemma_contains_at(l, spawn_chars(), n + 3);
    assert(l.subrange(n + 1, n + 2) =~= seq!['{']);
    lemma_find_at(l, seq!['{'], n + 1);
    assert(l.take(n + 1) =~= keys + seq![' ']);
    assert(trim_start(keys + seq![' ']) == keys + seq![' ']);
    assert((keys + seq![' ']).drop_last() =~= keys);
    assert(trim_end(keys) == keys);
    assert(trim(l.take(n + 1)) == keys);
    let rest = l.skip(n + 2);
    assert(rest.subrange(1, 6) =~= spawn_chars());
    lemma_find_at(rest, spawn_chars(), 1);
    let args = rest.skip(6);
    let r1 = w1 + "\" \""@ + w2 + "\"; }"@;
    assert(args =~= seq![' '] + seq!['"'] + voxtype_chars() + seq!['"'] + (seq![' '] + seq!['"'] + r1));
    lemma_quoted_step(seq![' '], voxtype_chars(), seq![' '] + seq!['"'] + r1);
    let r2 = w2 + "\"; }"@;
    assert(seq![' '] + seq!['"'] + r1 =~= seq![' '] + seq!['"'] + w1 + seq!['"'] + (seq![' '] + seq!['"'] + r2));
    assert(quoted(seq![' '] + seq!['"'] + r1) == quoted(Seq::empty() + (seq![' '] + seq!['"'] + w1 + seq!['"'] + (seq![' '] + seq!['"'] + r2)))) by {
        assert(seq![' '] + seq!['"'] + r1 =~= Seq::empty() + (seq![' '] + seq!['"'] + w1 + seq!['"'] + (seq![' '] + seq!['"'] + r2)));
    }
    lemma_quoted_step(seq![' '], w1, seq![' '] + seq!['"'] + r2);
    let r3 = seq![';', ' ', '}'];
    assert(seq![' '] + seq!['"'] + r2 =~= seq![' '] + seq!['"'] + w2 + seq!['"'] + r3);
    lemma_quoted_step(seq![' '], w2, r3);
    lemma_quoted_none(r3);
    assert(quoted(args) =~= seq![voxtype_chars(), w1, w2]);
}

/// No character of `s` is whitespace.
pub open spec fn no_ws(s: Seq<char>) -> bool {
    forall|j: int| 0 <= j < s.len() ==> !is_ws(#[trigger] s[j])
}

proof fn lemma_words_single(s: Seq<char>)
    requires
        s.len() > 0,
        no_ws(s),
    ensures
        words(s) == seq![s],
    decreases s.len(),
{
    if s.len() > 1 {
        lemma_words_single(s.drop_last());
        assert(!is_ws(s[s.len() - 2]));
        assert(s.drop_last().push(s.last()) =~= s);
    } else {
        assert(words(s.drop_last()) =~= Seq::<Seq<char>>::empty());
        assert(seq![s.last()] =~= s);
    }
}

proof fn lemma_words_push(x: Seq<char>, b: Seq<char>)
    requires
        b.len() > 0,
        no_ws(b),
    ensures
        words(x + seq![' '] + b) == words(x).push(b),
    decreases b.len(),
{
    let s = x + seq![' '] + b;
    assert(!is_ws(b[b.len() - 1]));
    assert(s.last() == b.last());
    if b.len() == 1 {
        assert(s.drop_last() =~= x + seq![' ']);
        assert((x + seq![' ']).drop_last() =~= x);
        assert(is_ws((x + seq![' ']).last()));
        assert(words(x + seq![' ']) == words(x));
        assert(is_ws(s[s.len() - 2]));
        assert(seq![b.last()] =~= b);
        assert(words(s) == words(x).push(seq![b.last()]));
    } else {
        lemma_words_push(x, b.drop_last());
        assert(s.drop_last() =~= x + seq![' '] + b.drop_last());
        assert(s[s.len() - 2] == b[b.len() - 2]);
        assert(!is_ws(b[b.len() - 2]));
        let p = words(x).push(b.drop_last());
        assert(words(s) == p.update(p.len() - 1, p.last().push(s.last())));
        assert(b.drop_last().push(b.last()) =~= b);
        assert(p.update(p.len() - 1, p.last().push(s.last())) =~= words(x).push(b));
    }
}

/// `words(w1 + " " + w2)` is the two words.
proof fn lemma_two_words(w1: Seq<char>, w2: Seq<char>)
    requires
        w1.len() > 0,
        w2.len() > 0,
        no_ws(w1),
        no_ws(w2),
    ensures
        words(w1 + seq![' '] + w2) == seq![w1, w2],
{
    lemma_words_single(w1);
    lemma_words_push(w1, w2);
}

proof fn lemma_split_none(x: Seq<char>, c: char)
    requires
        absent(x, c, 0, x.len() as int),
    ensures
        split_char(x, c) == seq![x],
    decreases x.len(),
{
    if x.len() > 0 {
        lemma_split_none(x.drop_last(), c);
        assert(x.drop_last().push(x.last()) =~= x);
        assert(seq![x.drop_last()].update(0, x.drop_last().push(x.last())) =~= seq![x]);
    } else {
        assert(x =~= Seq::<char>::empty());
    }
}

proof fn lemma_split_concat(x: Seq<char>, c: char, y: Seq<char>)
    ensures
        split_char(x + seq![c] + y, c) == split_char(x, c) + split_char(y, c),
    decreases y.len(),
{
    let s = x + seq![c] + y;
    if y.len() == 0 {
        assert(s.drop_last() =~= x);
        assert(s =~= x + seq![c]);
        assert(split_char(y, c) =~= seq![Seq::<char>::empty()]);
        assert(split_char(x, c).push(Seq::<char>::empty()) =~= split_char(x, c) + seq![Seq::<char>::empty()]);
    } else {
        lemma_split_concat(x, c, y.drop_last());
        assert(s.drop_last() =~= x + seq![c] + y.drop_last());
        assert(s.last() == y.last());
        let a = split_char(x, c);
        let b = split_char(y.drop_last(), c);
        crate::text::lemma_split_char_len(y.drop_last(), c);
        if y.last() == c {
            assert((a + b).push(Seq::<char>::empty()) =~= a + b.push(Seq::<char>::empty()));
        } else {
            assert((a + b).update((a + b).len() - 1, (a + b).last().push(y.last())) =~= a + b.update(
                b.len() - 1,
                b.last().push(y.last()),
            ));
        }
    }
}

/// `h + sp` trimmed at the end is `h`, when `sp` is whitespace and `h` ends
/// in a non-whitespace character.
proof fn lemma_trim_end_spaces(h: Seq<char>, sp: Seq<char>)
    requires
        h.len() > 0,
        !is_ws(h.last()),
        forall|j: int| 0 <= j < sp.len() ==> is_ws(#[trigger] sp[j]),
    ensures
        trim_end(h + sp) == h,
    decreases sp.len(),
{
    if sp.len() > 0 {
        assert((h + sp).drop_last() =~= h + sp.drop_last());
        lemma_trim_end_spaces(h, sp.drop_last());
    } else {
        assert(h + sp =~= h);
    }
}

/// The head `h sp =` of a Hyprland line: `find` meets the `=` right after
/// it, and the part before trims to `h`.
#[verifier::spinoff_prover]
proof fn lemma_hyprland_head(h: Seq<char>, sp: Seq<char>, rhs: Seq<char>)
    requires
        h.len() > 0,
        no_ws(h),
        absent(h, '=', 0, h.len() as int),
        forall|j: int| 0 <= j < sp.len() ==> is_ws(#[trigger] sp[j]) && sp[j] != '=',
    ensures
        find(h + sp + seq!['='] + rhs, seq!['=']) == Some((h.len() + sp.len()) as int),
        trim((h + sp + seq!['='] + rhs).take((h.len() + sp.len()) as int)) == h,
        (h + sp + seq!['='] + rhs).skip(h.len() + sp.len() + 1int) == rhs,
{
    let head = h + sp;
    let l = head + seq!['='] + rhs;
    let n = head.len() as int;
    assert(l.subrange(n, n + 1) =~= seq!['=']);
    assert forall|j: int| 0 <= j < n implies l[j] != seq!['='][0] by {
        if j < h.len() {
            assert(l[j] == h[j]);
        } else {
            assert(l[j] == sp[j - h.len()]);
        }
    }
    lemma_find_at(l, seq!['='], n);
    assert(l.take(n) =~= head);
    assert(!is_ws(h[0]));
    assert(trim_start(head) == head) by {
        assert(head[0] == h[0]);
    }
    assert(!is_ws(h.last()));
    lemma_trim_end_spaces(h, sp);
    assert(l.skip(n + 1) =~= rhs);
}

/// The fields `f0, f1, f2, f3, " voxtype <a>"` of a Hyprland line.
#[verifier::spinoff_prover]
proof fn lemma_hyprland_fields(
    f0: Seq<char>,
    f1: Seq<char>,
    f2: Seq<char>,
    f3: Seq<char>,
    a: Seq<char>,
)
    requires
        absent(f0, ',', 0, f0.len() as int),
        absent(f1, ',', 0, f1.len() as int),
        absent(f2, ',', 0, f2.len() as int),
        absent(f3, ',', 0, f3.len() as int),
        absent(a, ',', 0, a.len() as int),
        a.len() > 0,
        !is_ws(a.last()),
    ensures
        ({
            let rhs = f0 + seq![','] + f1 + seq![','] + f2 + seq![','] + f3 + seq![','] + (" voxtype "@
                + a);
            &&& contains(rhs, voxtype_chars())
            &&& split_char(rhs, ',') == seq![f0, f1, f2, f3, " voxtype "@ + a]
        }),
        trim(" voxtype "@ + a) == "voxtype "@ + a,
{
    reveal_strlit(" voxtype ");
    reveal_strlit("voxtype ");
    let f4 = " voxtype "@ + a;
    let r3 = f3 + seq![','] + f4;
    let r2 = f2 + seq![','] + r3;
    let r1 = f1 + seq![','] + r2;
    let rhs = f0 + seq![','] + f1 + seq![','] + f2 + seq![','] + f3 + seq![','] + f4;
    assert(rhs =~= f0 + seq![','] + r1);
    let k = rhs.len() - f4.len() + 1;
    assert(rhs.subrange(k, k + 7) =~= voxtype_chars());
    lemma_contains_at(rhs, voxtype_chars(), k);
    assert(absent(f4, ',', 0, f4.len() as int)) by {
        assert forall|j: int| 0 <= j < f4.len() implies f4[j] != ',' by {
            if j >= 9 {
                assert(f4[j] == a[j - 9]);
            }
        }
    }
    lemma_split_none(f0, ',');
    lemma_split_none(f1, ',');
    lemma_split_none(f2, ',');
    lemma_split_none(f3, ',');
    lemma_split_none(f4, ',');
    lemma_split_concat(f3, ',', f4);
    lemma_split_concat(f2, ',', r3);
    lemma_split_concat(f1, ',', r2);
    lemma_split_concat(f0, ',', r1);
    assert(split_char(rhs, ',') =~= seq![f0, f1, f2, f3, f4]);
    assert(trim_start(f4) == "voxtype "@ + a) by {
        assert(" voxtype "@[0] == ' ');
        assert(f4[0] == ' ');
        assert(is_ws(f4[0]));
        assert(f4.drop_first() =~= "voxtype "@ + a);
        assert(trim_start(f4) == trim_start(f4.drop_first()));
        assert("voxtype "@[0] == 'v');
        assert(("voxtype "@ + a)[0] == 'v');
        assert(!is_ws(('v')));
        assert(trim_start("voxtype "@ + a) == "voxtype "@ + a);
    }
    assert(trim_end("voxtype "@ + a) == "voxtype "@ + a) by {
        assert(("voxtype "@ + a).last() == a.last());
    }
}

/// The Hyprland line `h sp = f0, f1, f2, f3, " voxtype <a>"` runs the
/// command `voxtype <a>`.
#[verifier::rlimit(40)]
#[verifier::spinoff_prover]
proof fn lemma_hyprland_line(
    h: Seq<char>,
    sp: Seq<char>,
    f0: Seq<char>,
    f1: Seq<char>,
    f2: Seq<char>,
    f3: Seq<char>,
    a: Seq<char>,
)
    requires
        starts_with(h, bind_chars()),
        no_ws(h),
        absent(h, '=', 0, h.len() as int),
        forall|j: int| 0 <= j < sp.len() ==> is_ws(#[trigger] sp[j]) && sp[j] != '=',
        absent(f0, ',', 0, f0.len() as int),
        absent(f1, ',', 0, f1.len() as int),
        absent(f2, ',', 0, f2.len() as int),
        absent(f3, ',', 0, f3.len() as int),
        absent(a, ',', 0, a.len() as int),
        a.len() > 0,
        !is_ws(a.last()),
    ensures
        hyprland_command(
            h + sp + seq!['='] + (f0 + seq![','] + f1 + seq![','] + f2 + seq![','] + f3 + seq![',']
                + (" voxtype "@ + a)),
        ) matches Some(c) && c.2 == "voxtype "@ + a,
{
    let rhs = f0 + seq![','] + f1 + seq![','] + f2 + seq![','] + f3 + seq![','] + (" voxtype "@ + a);
    let l = h + sp + seq!['='] + rhs;
    lemma_hyprland_head(h, sp, rhs);
    lemma_hyprland_fields(f0, f1, f2, f3, a);
    assert(trim(l) == l) by {
        assert(l[0] == h[0]);
        assert(!is_ws(h[0]));
        assert(trim_start(l) == l);
        assert(l.last() == a.last());
    }
    assert(!starts_with(l, seq!['#'])) by {
        assert(l.take(1)[0] == h[0]);
        assert(h.take(4)[0] == h[0]);
    }
}

/// The words of `ws` joined by single spaces split back into `ws`.
proof fn lemma_words_join(ws: Seq<Seq<char>>)
    requires
        forall|i: int| 0 <= i < ws.len() ==> (#[trigger] ws[i]).len() > 0 && no_ws(ws[i]),
    ensures
        words(join_words(ws)) == ws,
    decreases ws.len(),
{
    if ws.len() == 0 {
        assert(words(Seq::<char>::empty()) =~= Seq::<Seq<char>>::empty());
    } else if ws.len() == 1 {
        lemma_words_single(ws[0]);
        assert(seq![ws[0]] =~= ws);
    } else {
        lemma_words_join(ws.drop_last());
        assert(ws[ws.len() - 1] == ws.last());
        lemma_words_push(join_words(ws.drop_last()), ws.last());
        assert(ws.drop_last().push(ws.last()) =~= ws);
    }
}

/// Joining a sequence that ends in three words.
proof fn lemma_join_last_three(p: Seq<Seq<char>>, x: Seq<char>, y: Seq<char>, z: Seq<char>)
    requires
        p.len() > 0,
    ensures
        join_words(p + seq![x, y, z]) == join_words(p) + seq![' '] + x + seq![' '] + y + seq![' '] + z,
{
    let s1 = p + seq![x];
    let s2 = p + seq![x, y];
    let s3 = p + seq![x, y, z];
    assert(s3.drop_last() =~= s2);
    assert(s2.drop_last() =~= s1);
    assert(s1.drop_last() =~= p);
    assert(s1.last() == x && s2.last() == y && s3.last() == z);
    assert(join_words(s1) == join_words(p) + seq![' '] + x);
    assert(join_words(s2) == join_words(s1) + seq![' '] + y);
    assert(join_words(s3) == join_words(s2) + seq![' '] + z);
    assert(join_words(s3) =~= join_words(p) + seq![' '] + x + seq![' '] + y + seq![' '] + z);
}

/// The first character of words joined by spaces.
proof fn lemma_join_first(ws: Seq<Seq<char>>)
    requires
        ws.len() > 0,
        ws[0].len() > 0,
    ensures
        join_words(ws).len() > 0,
        join_words(ws)[0] == ws[0][0],
    decreases ws.len(),
{
    if ws.len() > 1 {
        lemma_join_first(ws.drop_last());
    }
}

/// Flags in front are dropped.
proof fn lemma_drop_flags(flags: Seq<Seq<char>>, r: Seq<Seq<char>>)
    requires
        forall|i: int| 0 <= i < flags.len() ==> starts_with(#[trigger] flags[i], seq!['-', '-']),
        r.len() > 0,
        !starts_with(r[0], seq!['-', '-']),
    ensures
        drop_flags(flags + r) == r,
    decreases flags.len(),
{
    if flags.len() == 0 {
        assert(flags + r =~= r);
    } else {
        assert((flags + r).drop_first() =~= flags.drop_first() + r);
        assert(flags[0] == (flags + r)[0]);
        lemma_drop_flags(flags.drop_first(), r);
    }
}

/// The Sway line `bindsym <flags> keys exec voxtype w1 w2` runs the command
/// `voxtype w1 w2`.
#[verifier::rlimit(40)]
#[verifier::spinoff_prover]
proof fn lemma_sway_line(flags: Seq<Seq<char>>, keys: Seq<char>, w1: Seq<char>, w2: Seq<char>)
    requires
        forall|i: int|
            0 <= i < flags.len() ==> (#[trigger] flags[i]).len() > 0 && no_ws(flags[i])
                && starts_with(flags[i], seq!['-', '-']),
        keys.len() > 0,
        no_ws(keys),
        keys[0] != '-',
        keys != "exec"@,
        w1.len() > 0,
        no_ws(w1),
        w2.len() > 0,
        no_ws(w2),
    ensures
        sway_command(
            join_words(seq!["bindsym"@] + flags + seq![keys, "exec"@, "voxtype"@, w1, w2]),
        ) matches Some(c) && c.1 == "voxtype "@ + (w1 + seq![' '] + w2) && c.0 == keys,
{
    reveal_strlit("bindsym");
    reveal_strlit("exec");
    reveal_strlit("voxtype");
    reveal_strlit("voxtype ");
    let r = seq![keys, "exec"@, "voxtype"@, w1, w2];
    let ws = seq!["bindsym"@] + flags + r;
    let head = seq!["bindsym"@] + flags + seq![keys, "exec"@];
    assert(ws =~= head + seq!["voxtype"@, w1, w2]);
    let l = join_words(ws);
    assert forall|i: int| 0 <= i < ws.len() implies (#[trigger] ws[i]).len() > 0 && no_ws(ws[i]) by {
        if i == 0 {
        } else if i < 1 + flags.len() {
            assert(ws[i] == flags[i - 1]);
        } else {
            assert(ws[i] == r[i - 1 - flags.len()]);
        }
    }
    lemma_words_join(ws);
    lemma_join_last_three(head, "voxtype"@, w1, w2);
    assert(l == join_words(head) + seq![' '] + "voxtype"@ + seq![' '] + w1 + seq![' '] + w2);
    lemma_join_first(ws);
    assert(trim(l) == l) by {
        assert(!is_ws(l[0]));
        assert(trim_start(l) == l);
        assert(l.last() == w2.last());
        assert(!is_ws(w2[w2.len() - 1]));
    }
    let k = join_words(head).len() + 1int;
    assert(l.subrange(k, k + 7) =~= voxtype_chars());
    lemma_contains_at(l, voxtype_chars(), k);
    assert(!starts_with(l, seq!['#'])) by {
        assert(l.take(1)[0] == l[0]);
    }
    assert(ws.drop_first() =~= flags + r);
    assert(!starts_with(keys, seq!['-', '-'])) by {
        if keys.len() >= 2 {
            assert(keys.take(2)[0] == keys[0]);
        }
    }
    lemma_drop_flags(flags, r);
    assert(r[1] == "exec"@);
    assert(index_from(r, "exec"@, 1) == Some(1int));
    assert(r[0] != "exec"@);
    assert(index_from(r, "exec"@, 0) == Some(1int));
    assert(r.skip(2) =~= seq!["voxtype"@, w1, w2]);
    assert(seq!["voxtype"@, w1, w2] =~= seq!["voxtype"@] + seq![w1, w2]);
    assert(join_words(seq!["voxtype"@, w1, w2]) == "voxtype "@ + (w1 + seq![' '] + w2)) by {
        let j1 = seq!["voxtype"@];
        let j2 = seq!["voxtype"@, w1];
        let j3 = seq!["voxtype"@, w1, w2];
        assert(j3.drop_last() =~= j2);
        assert(j2.drop_last() =~= j1);
        assert(join_words(j1) == "voxtype"@);
        assert(join_words(j2) == join_words(j1) + seq![' '] + w1);
        assert(join_words(j3) == join_words(j2) + seq![' '] + w2);
        assert("voxtype "@ =~= "voxtype"@ + seq![' ']);
        assert(join_words(j3) =~= "voxtype "@ + (w1 + seq![' '] + w2));
    }
}

/// A word that can stand in an action: not empty, without whitespace or
/// quotes.
pub open spec fn plain_word(w: Seq<char>) -> bool {
    w.len() > 0 && no_ws(w) && absent(w, '"', 0, w.len() as int)
}

/// The suggested Niri line for a two-word action.
#[verifier::rlimit(40)]
#[verifier::spinoff_prover]
proof fn lemma_niri_single(w1: Seq<char>, w2: Seq<char>)
    requires
        plain_word(w1),
        plain_word(w2),
        known_action(w1 + seq![' '] + w2),
    ensures
        render_lines_spec(Compositor::Niri, w1 + seq![' '] + w2, BindShape::Single)
            == seq!["Mod+Space"@ + " { spawn \"voxtype\" \""@ + w1 + "\" \""@ + w2 + "\"; }"@],
        niri_line_spec("Mod+Space"@ + " { spawn \"voxtype\" \""@ + w1 + "\" \""@ + w2 + "\"; }"@)
            == Some(("Mod+Space"@, w1 + seq![' '] + w2)),
{
    let a = w1 + seq![' '] + w2;
    lemma_two_words(w1, w2);
    let f = |w: Seq<char>| seq!['"'] + w + seq!['"'];
    assert(words(a).map_values(f) =~= seq![f(w1), f(w2)]);
    reveal_with_fuel(join_words, 2);
    assert(join_words(seq![f(w1), f(w2)]) == join_words(seq![f(w1)]) + seq![' '] + f(w2));
    assert(seq![f(w1), f(w2)].drop_last() =~= seq![f(w1)]);
    assert(quote_words_spec(a) == f(w1) + seq![' '] + f(w2));
    reveal_strlit("Mod+Space { spawn \"voxtype\" ");
    reveal_strlit("; }");
    reveal_strlit("Mod+Space");
    reveal_strlit(" { spawn \"voxtype\" \"");
    reveal_strlit("\" \"");
    reveal_strlit("\"; }");
    assert("Mod+Space { spawn \"voxtype\" "@ + quote_words_spec(a) + "; }"@ =~= "Mod+Space"@
        + " { spawn \"voxtype\" \""@ + w1 + "\" \""@ + w2 + "\"; }"@);
    lemma_niri_line("Mod+Space"@, w1, w2);
}

/// The fixed Hyprland line of this suggestion is found again.
#[verifier::spinoff_prover]
proof fn hyprland_ptt_start()
    ensures
        hyprland_scan_line("bindd  = , F13, Voxtype PTT (start), exec, voxtype record start"@) matches Some(b) && b.1 == "record start"@,
{
    reveal_strlit("bindd  = , F13, Voxtype PTT (start), exec, voxtype record start");
    reveal_strlit("bindd");
    reveal_strlit(" ");
    reveal_strlit(" F13");
    reveal_strlit(" Voxtype PTT (start)");
    reveal_strlit(" exec");
    reveal_strlit("record start");
    reveal_strlit(" voxtype ");
    let sp = seq![' ', ' '];
    assert("bindd  = , F13, Voxtype PTT (start), exec, voxtype record start"@ =~= "bindd"@ + sp + seq!['='] + (" "@ + seq![','] + " F13"@ + seq![','] + " Voxtype PTT (start)"@ + seq![','] + " exec"@ + seq![','] + (" voxtype "@ + "record start"@)));
    assert("bindd"@.take(4) =~= bind_chars());
    lemma_hyprland_line("bindd"@, sp, " "@, " F13"@, " Voxtype PTT (start)"@, " exec"@, "record start"@);
    reveal_strlit("record");
    reveal_strlit("start");
    reveal_strlit("record start");
    assert("record start"@ =~= "record"@ + seq![' '] + "start"@);
    lemma_command_action("record"@, "start"@);
}

/// The fixed Hyprland line of this suggestion is found again.
#[verifier::spinoff_prover]
proof fn hyprland_ptt_stop()
    ensures
        hyprland_scan_line("bindrd = , F13, Voxtype PTT (stop),  exec, voxtype record stop"@) matches Some(b) && b.1 == "record stop"@,
{
    reveal_strlit("bindrd = , F13, Voxtype PTT (stop),  exec, voxtype record stop");
    reveal_strlit("bindrd");
    reveal_strlit(" ");
    reveal_strlit(" F13");
    reveal_strlit(" Voxtype PTT (stop)");
    reveal_strlit("  exec");
    reveal_strlit("record stop");
    reveal_strlit(" voxtype ");
    let sp = seq![' '];
    assert("bindrd = , F13, Voxtype PTT (stop),  exec, voxtype record stop"@ =~= "bindrd"@ + sp + seq!['='] + (" "@ + seq![','] + " F13"@ + seq![','] + " Voxtype PTT (stop)"@ + seq![','] + "  exec"@ + seq![','] + (" voxtype "@ + "record stop"@)));
    assert("bindrd"@.take(4) =~= bind_chars());
    lemma_hyprland_line("bindrd"@, sp, " "@, " F13"@, " Voxtype PTT (stop)"@, "  exec"@, "record stop"@);
    reveal_strlit("record");
    reveal_strlit("stop");
    reveal_strlit("record stop");
    assert("record stop"@ =~= "record"@ + seq![' '] + "stop"@);
    lemma_command_action("record"@, "stop"@);
}

/// The fixed Hyprland line of this suggestion is found again.
#[verifier::spinoff_prover]
proof fn hyprland_meeting_start()
    ensures
        hyprland_scan_line("bind = SUPER, M,        Meeting start, exec, voxtype meeting start"@) matches Some(b) && b.1 == "meeting start"@,
{
    reveal_strlit("bind = SUPER, M,        Meeting start, exec, voxtype meeting start");
    reveal_strlit("bind");
    reveal_strlit(" SUPER");
    reveal_strlit(" M");
    reveal_strlit("        Meeting start");
    reveal_strlit(" exec");
    reveal_strlit("meeting start");
    reveal_strlit(" voxtype ");
    let sp = seq![' '];
    assert("bind = SUPER, M,        Meeting start, exec, voxtype meeting start"@ =~= "bind"@ + sp + seq!['='] + (" SUPER"@ + seq![','] + " M"@ + seq![','] + "        Meeting start"@ + seq![','] + " exec"@ + seq![','] + (" voxtype "@ + "meeting start"@)));
    assert("bind"@.take(4) =~= bind_chars());
    lemma_hyprland_line("bind"@, sp, " SUPER"@, " M"@, "        Meeting start"@, " exec"@, "meeting start"@);
    reveal_strlit("meeting");
    reveal_strlit("start");
    reveal_strlit("meeting start");
    assert("meeting start"@ =~= "meeting"@ + seq![' '] + "start"@);
    lemma_command_action("meeting"@, "start"@);
}

/// The fixed Hyprland line of this suggestion is found again.
#[verifier::spinoff_prover]
proof fn hyprland_meeting_stop()
    ensures
        hyprland_scan_line("bind = SUPER SHIFT, M,  Meeting stop,  exec, voxtype meeting stop"@) matches Some(b) && b.1 == "meeting stop"@,
{
    reveal_strlit("bind = SUPER SHIFT, M,  Meeting stop,  exec, voxtype meeting stop");
    reveal_strlit("bind");
    reveal_strlit(" SUPER SHIFT");
    reveal_strlit(" M");
    reveal_strlit("  Meeting stop");
    reveal_strlit("  exec");
    reveal_strlit("meeting stop");
    reveal_strlit(" voxtype ");
    let sp = seq![' '];
    assert("bind = SUPER SHIFT, M,  Meeting stop,  exec, voxtype meeting stop"@ =~= "bind"@ + sp + seq!['='] + (" SUPER SHIFT"@ + seq![','] + " M"@ + seq![','] + "  Meeting stop"@ + seq![','] + "  exec"@ + seq![','] + (" voxtype "@ + "meeting stop"@)));
    assert("bind"@.take(4) =~= bind_chars());
    lemma_hyprland_line("bind"@, sp, " SUPER SHIFT"@, " M"@, "  Meeting stop"@, "  exec"@, "meeting stop"@);
    reveal_strlit("meeting");
    reveal_strlit("stop");
    reveal_strlit("meeting stop");
    assert("meeting stop"@ =~= "meeting"@ + seq![' '] + "stop"@);
    lemma_command_action("meeting"@, "stop"@);
}

/// The fixed Niri line of this suggestion is found again.
#[verifier::spinoff_prover]
proof fn niri_ptt_start()
    ensures
        niri_line_spec("F13 { spawn \"voxtype\" \"record\" \"start\"; }"@) == Some(("F13"@, "record start"@)),
{
    reveal_strlit("F13 { spawn \"voxtype\" \"record\" \"start\"; }");
    reveal_strlit("F13");
    reveal_strlit("record");
    reveal_strlit("start");
    reveal_strlit("record start");
    reveal_strlit(" { spawn \"voxtype\" \"");
    reveal_strlit("\" \"");
    reveal_strlit("\"; }");
    assert("F13 { spawn \"voxtype\" \"record\" \"start\"; }"@ =~= "F13"@ + " { spawn \"voxtype\" \""@ + "record"@ + "\" \""@ + "start"@ + "\"; }"@);
    assert("record start"@ =~= "record"@ + seq![' '] + "start"@);
    lemma_niri_line("F13"@, "record"@, "start"@);
}

/// The fixed Niri line of this suggestion is found again.
#[verifier::spinoff_prover]
proof fn niri_toggle()
    ensures
        niri_line_spec("F13 { spawn \"voxtype\" \"record\" \"toggle\"; }"@) == Some(("F13"@, "record toggle"@)),
{
    reveal_strlit("F13 { spawn \"voxtype\" \"record\" \"toggle\"; }");
    reveal_strlit("F13");
    reveal_strlit("record");
    reveal_strlit("toggle");
    reveal_strlit("record toggle");
    reveal_strlit(" { spawn \"voxtype\" \"");
    reveal_strlit("\" \"");
    reveal_strlit("\"; }");
    assert("F13 { spawn \"voxtype\" \"record\" \"toggle\"; }"@ =~= "F13"@ + " { spawn \"voxtype\" \""@ + "record"@ + "\" \""@ + "toggle"@ + "\"; }"@);
    assert("record toggle"@ =~= "record"@ + seq![' '] + "toggle"@);
    lemma_niri_line("F13"@, "record"@, "toggle"@);
}

/// The fixed Niri line of this suggestion is found again.
#[verifier::spinoff_prover]
proof fn niri_meeting_start()
    ensures
        niri_line_spec("Mod+M { spawn \"voxtype\" \"meeting\" \"start\"; }"@) == Some(("Mod+M"@, "meeting start"@)),
{
    reveal_strlit("Mod+M { spawn \"voxtype\" \"meeting\" \"start\"; }");
    reveal_strlit("Mod+M");
    reveal_strlit("meeting");
    reveal_strlit("start");
    reveal_strlit("meeting start");
    reveal_strlit(" { spawn \"voxtype\" \"");
    reveal_strlit("\" \"");
    reveal_strlit("\"; }");
    assert("Mod+M { spawn \"voxtype\" \"meeting\" \"start\"; }"@ =~= "Mod+M"@ + " { spawn \"voxtype\" \""@ + "meeting"@ + "\" \""@ + "start"@ + "\"; }"@);
    assert("meeting start"@ =~= "meeting"@ + seq![' '] + "start"@);
    lemma_niri_line("Mod+M"@, "meeting"@, "start"@);
}

/// The fixed Niri line of this suggestion is found again.
#[verifier::spinoff_prover]
proof fn niri_meeting_stop()
    ensures
        niri_line_spec("Mod+Shift+M { spawn \"voxtype\" \"meeting\" \"stop\"; }"@) == Some(("Mod+Shift+M"@, "meeting stop"@)),
{
    reveal_strlit("Mod+Shift+M { spawn \"voxtype\" \"meeting\" \"stop\"; }");
    reveal_strlit("Mod+Shift+M");
    reveal_strlit("meeting");
    reveal_strlit("stop");
    reveal_strlit("meeting stop");
    reveal_strlit(" { spawn \"voxtype\" \"");
    reveal_strlit("\" \"");
    reveal_strlit("\"; }");
    assert("Mod+Shift+M { spawn \"voxtype\" \"meeting\" \"stop\"; }"@ =~= "Mod+Shift+M"@ + " { spawn \"voxtype\" \""@ + "meeting"@ + "\" \""@ + "stop"@ + "\"; }"@);
    assert("meeting stop"@ =~= "meeting"@ + seq![' '] + "stop"@);
    lemma_niri_line("Mod+Shift+M"@, "meeting"@, "stop"@);
}

/// The fixed Sway line of this suggestion is found again.
#[verifier::spinoff_prover]
proof fn sway_ptt_start()
    ensures
        sway_scan_line("bindsym F13 exec voxtype record start"@) matches Some(b) && b.1 == "record start"@,
{
    reveal_strlit("bindsym F13 exec voxtype record start");
    reveal_strlit("bindsym");
    reveal_strlit("F13");
    reveal_strlit("exec");
    reveal_strlit("voxtype");
    reveal_strlit("record");
    reveal_strlit("start");
    reveal_strlit("record start");
    reveal_strlit("voxtype ");
    let flags = Seq::<Seq<char>>::empty();
    assert(seq!["bindsym"@] + flags + seq!["F13"@, "exec"@, "voxtype"@, "record"@, "start"@] =~= seq!["bindsym"@, "F13"@, "exec"@, "voxtype"@, "record"@, "start"@]);
    lemma_join_cons("bindsym"@, seq!["F13"@, "exec"@, "voxtype"@, "record"@, "start"@]);
    assert(seq!["bindsym"@] + seq!["F13"@, "exec"@, "voxtype"@, "record"@, "start"@] =~= seq!["bindsym"@, "F13"@, "exec"@, "voxtype"@, "record"@, "start"@]);
    lemma_join_cons("F13"@, seq!["exec"@, "voxtype"@, "record"@, "start"@]);
    assert(seq!["F13"@] + seq!["exec"@, "voxtype"@, "record"@, "start"@] =~= seq!["F13"@, "exec"@, "voxtype"@, "record"@, "start"@]);
    lemma_join_cons("exec"@, seq!["voxtype"@, "record"@, "start"@]);
    assert(seq!["exec"@] + seq!["voxtype"@, "record"@, "start"@] =~= seq!["exec"@, "voxtype"@, "record"@, "start"@]);
    lemma_join_cons("voxtype"@, seq!["record"@, "start"@]);
    assert(seq!["voxtype"@] + seq!["record"@, "start"@] =~= seq!["voxtype"@, "record"@, "start"@]);
    lemma_join_cons("record"@, seq!["start"@]);
    assert(seq!["record"@] + seq!["start"@] =~= seq!["record"@, "start"@]);
    assert(join_words(seq!["start"@]) == "start"@);
    assert(join_words(seq!["bindsym"@, "F13"@, "exec"@, "voxtype"@, "record"@, "start"@]) =~= "bindsym F13 exec voxtype record start"@);
    assert(flags.len() == 0);
    lemma_sway_line(flags, "F13"@, "record"@, "start"@);
    assert("record start"@ =~= "record"@ + seq![' '] + "start"@);
    reveal_strlit("record");
    reveal_strlit("start");
    reveal_strlit("record start");
    assert("record start"@ =~= "record"@ + seq![' '] + "start"@);
    lemma_command_action("record"@, "start"@);
}

/// The fixed Sway line of this suggestion is found again.
#[verifier::spinoff_prover]
proof fn sway_ptt_stop()
    ensures
        sway_scan_line("bindsym --release F13 exec voxtype record stop"@) matches Some(b) && b.1 == "record stop"@,
{
    reveal_strlit("bindsym --release F13 exec voxtype record stop");
    reveal_strlit("bindsym");
    reveal_strlit("--release");
    reveal_strlit("F13");
    reveal_strlit("exec");
    reveal_strlit("voxtype");
    reveal_strlit("record");
    reveal_strlit("stop");
    reveal_strlit("record stop");
    reveal_strlit("voxtype ");
    let flags = seq!["--release"@];
    assert(flags[0] == "--release"@);
    assert("--release"@.take(2) =~= seq!['-', '-']);
    assert(no_ws("--release"@));
    assert(seq!["bindsym"@] + flags + seq!["F13"@, "exec"@, "voxtype"@, "record"@, "stop"@] =~= seq!["bindsym"@, "--release"@, "F13"@, "exec"@, "voxtype"@, "record"@, "stop"@]);
    lemma_join_cons("bindsym"@, seq!["--release"@, "F13"@, "exec"@, "voxtype"@, "record"@, "stop"@]);
    assert(seq!["bindsym"@] + seq!["--release"@, "F13"@, "exec"@, "voxtype"@, "record"@, "stop"@] =~= seq!["bindsym"@, "--release"@, "F13"@, "exec"@, "voxtype"@, "record"@, "stop"@]);
    lemma_join_cons("--release"@, seq!["F13"@, "exec"@, "voxtype"@, "record"@, "stop"@]);
    assert(seq!["--release"@] + seq!["F13"@, "exec"@, "voxtype"@, "record"@, "stop"@] =~= seq!["--release"@, "F13"@, "exec"@, "voxtype"@, "record"@, "stop"@]);
    lemma_join_cons("F13"@, seq!["exec"@, "voxtype"@, "record"@, "stop"@]);
    assert(seq!["F13"@] + seq!["exec"@, "voxtype"@, "record"@, "stop"@] =~= seq!["F13"@, "exec"@, "voxtype"@, "record"@, "stop"@]);
    lemma_join_cons("exec"@, seq!["voxtype"@, "record"@, "stop"@]);
    assert(seq!["exec"@] + seq!["voxtype"@, "record"@, "stop"@] =~= seq!["exec"@, "voxtype"@, "record"@, "stop"@]);
    lemma_join_cons("voxtype"@, seq!["record"@, "stop"@]);
    assert(seq!["voxtype"@] + seq!["record"@, "stop"@] =~= seq!["voxtype"@, "record"@, "stop"@]);
    lemma_join_cons("record"@, seq!["stop"@]);
    assert(seq!["record"@] + seq!["stop"@] =~= seq!["record"@, "stop"@]);
    assert(join_words(seq!["stop"@]) == "stop"@);
    assert(join_words(seq!["bindsym"@, "--release"@, "F13"@, "exec"@, "voxtype"@, "record"@, "stop"@]) =~= "bindsym --release F13 exec voxtype record stop"@);
    assert(flags.len() == 1);
    lemma_sway_line(flags, "F13"@, "record"@, "stop"@);
    assert("record stop"@ =~= "record"@ + seq![' '] + "stop"@);
    reveal_strlit("record");
    reveal_strlit("stop");
    reveal_strlit("record stop");
    assert("record stop"@ =~= "record"@ + seq![' '] + "stop"@);
    lemma_command_action("record"@, "stop"@);
}

/// The fixed Sway line of this suggestion is found again.
#[verifier::spinoff_prover]
proof fn sway_meeting_start()
    ensures
        sway_scan_line("bindsym Mod4+m exec voxtype meeting start"@) matches Some(b) && b.1 == "meeting start"@,
{
    reveal_strlit("bindsym Mod4+m exec voxtype meeting start");
    reveal_strlit("bindsym");
    reveal_strlit("Mod4+m");
    reveal_strlit("exec");
    reveal_strlit("voxtype");
    reveal_strlit("meeting");
    reveal_strlit("start");
    reveal_strlit("meeting start");
    reveal_strlit("voxtype ");
    let flags = Seq::<Seq<char>>::empty();
    assert(seq!["bindsym"@] + flags + seq!["Mod4+m"@, "exec"@, "voxtype"@, "meeting"@, "start"@] =~= seq!["bindsym"@, "Mod4+m"@, "exec"@, "voxtype"@, "meeting"@, "start"@]);
    lemma_join_cons("bindsym"@, seq!["Mod4+m"@, "exec"@, "voxtype"@, "meeting"@, "start"@]);
    assert(seq!["bindsym"@] + seq!["Mod4+m"@, "exec"@, "voxtype"@, "meeting"@, "start"@] =~= seq!["bindsym"@, "Mod4+m"@, "exec"@, "voxtype"@, "meeting"@, "start"@]);
    lemma_join_cons("Mod4+m"@, seq!["exec"@, "voxtype"@, "meeting"@, "start"@]);
    assert(seq!["Mod4+m"@] + seq!["exec"@, "voxtype"@, "meeting"@, "start"@] =~= seq!["Mod4+m"@, "exec"@, "voxtype"@, "meeting"@, "start"@]);
    lemma_join_cons("exec"@, seq!["voxtype"@, "meeting"@, "start"@]);
    assert(seq!["exec"@] + seq!["voxtype"@, "meeting"@, "start"@] =~= seq!["exec"@, "voxtype"@, "meeting"@, "start"@]);
    lemma_join_cons("voxtype"@, seq!["meeting"@, "start"@]);
    assert(seq!["voxtype"@] + seq!["meeting"@, "start"@] =~= seq!["voxtype"@, "meeting"@, "start"@]);
    lemma_join_cons("meeting"@, seq!["start"@]);
    assert(seq!["meeting"@] + seq!["start"@] =~= seq!["meeting"@, "start"@]);
    assert(join_words(seq!["start"@]) == "start"@);
    assert(join_words(seq!["bindsym"@, "Mod4+m"@, "exec"@, "voxtype"@, "meeting"@, "start"@]) =~= "bindsym Mod4+m exec voxtype meeting start"@);
    assert(flags.len() == 0);
    lemma_sway_line(flags, "Mod4+m"@, "meeting"@, "start"@);
    assert("meeting start"@ =~= "meeting"@ + seq![' '] + "start"@);
    reveal_strlit("meeting");
    reveal_strlit("start");
    reveal_strlit("meeting start");
    assert("meeting start"@ =~= "meeting"@ + seq![' '] + "start"@);
    lemma_command_action("meeting"@, "start"@);
}

/// The fixed Sway line of this suggestion is found again.
#[verifier::spinoff_prover]
proof fn sway_meeting_stop()
    ensures
        sway_scan_line("bindsym Mod4+Shift+m exec voxtype meeting stop"@) matches Some(b) && b.1 == "meeting stop"@,
{
    reveal_strlit("bindsym Mod4+Shift+m exec voxtype meeting stop");
    reveal_strlit("bindsym");
    reveal_strlit("Mod4+Shift+m");
    reveal_strlit("exec");
    reveal_strlit("voxtype");
    reveal_strlit("meeting");
    reveal_strlit("stop");
    reveal_strlit("meeting stop");
    reveal_strlit("voxtype ");
    let flags = Seq::<Seq<char>>::empty();
    assert(seq!["bindsym"@] + flags + seq!["Mod4+Shift+m"@, "exec"@, "voxtype"@, "meeting"@, "stop"@] =~= seq!["bindsym"@, "Mod4+Shift+m"@, "exec"@, "voxtype"@, "meeting"@, "stop"@]);
    lemma_join_cons("bindsym"@, seq!["Mod4+Shift+m"@, "exec"@, "voxtype"@, "meeting"@, "stop"@]);
    assert(seq!["bindsym"@] + seq!["Mod4+Shift+m"@, "exec"@, "voxtype"@, "meeting"@, "stop"@] =~= seq!["bindsym"@, "Mod4+Shift+m"@, "exec"@, "voxtype"@, "meeting"@, "stop"@]);
    lemma_join_cons("Mod4+Shift+m"@, seq!["exec"@, "voxtype"@, "meeting"@, "stop"@]);
    assert(seq!["Mod4+Shift+m"@] + seq!["exec"@, "voxtype"@, "meeting"@, "stop"@] =~= seq!["Mod4+Shift+m"@, "exec"@, "voxtype"@, "meeting"@, "stop"@]);
    lemma_join_cons("exec"@, seq!["voxtype"@, "meeting"@, "stop"@]);
    assert(seq!["exec"@] + seq!["voxtype"@, "meeting"@, "stop"@] =~= seq!["exec"@, "voxtype"@, "meeting"@, "stop"@]);
    lemma_join_cons("voxtype"@, seq!["meeting"@, "stop"@]);
    assert(seq!["voxtype"@] + seq!["meeting"@, "stop"@] =~= seq!["voxtype"@, "meeting"@, "stop"@]);
    lemma_join_cons("meeting"@, seq!["stop"@]);
    assert(seq!["meeting"@] + seq!["stop"@] =~= seq!["meeting"@, "stop"@]);
    assert(join_words(seq!["stop"@]) == "stop"@);
    assert(join_words(seq!["bindsym"@, "Mod4+Shift+m"@, "exec"@, "voxtype"@, "meeting"@, "stop"@]) =~= "bindsym Mod4+Shift+m exec voxtype meeting stop"@);
    assert(flags.len() == 0);
    lemma_sway_line(flags, "Mod4+Shift+m"@, "meeting"@, "stop"@);
    assert("meeting stop"@ =~= "meeting"@ + seq![' '] + "stop"@);
    reveal_strlit("meeting");
    reveal_strlit("stop");
    reveal_strlit("meeting stop");
    assert("meeting stop"@ =~= "meeting"@ + seq![' '] + "stop"@);
    lemma_command_action("meeting"@, "stop"@);
}

/// Joining a first word with the rest.
proof fn lemma_join_cons(a: Seq<char>, rest: Seq<Seq<char>>)
    requires
        rest.len() > 0,
    ensures
        join_words(seq![a] + rest) == a + seq![' '] + join_words(rest),
    decreases rest.len(),
{
    let s = seq![a] + rest;
    assert(s.len() >= 2);
    assert(join_words(s) == join_words(s.drop_last()) + seq![' '] + s.last());
    if rest.len() == 1 {
        assert(s.drop_last() =~= seq![a]);
        assert(s.last() == rest[0]);
        assert(join_words(seq![a]) == a);
        assert(join_words(rest) == rest[0]);
    } else {
        lemma_join_cons(a, rest.drop_last());
        assert(s.drop_last() =~= seq![a] + rest.drop_last());
        assert(s.last() == rest.last());
        assert(join_words(rest) == join_words(rest.drop_last()) + seq![' '] + rest.last());
        assert(join_words(s) =~= a + seq![' '] + join_words(rest));
    }
}

/// The Hyprland line suggested for a two-word action.
#[verifier::spinoff_prover]
proof fn lemma_hyprland_single(w1: Seq<char>, w2: Seq<char>)
    requires
        plain_word(w1),
        plain_word(w2),
        absent(w1, ',', 0, w1.len() as int),
        absent(w2, ',', 0, w2.len() as int),
    ensures
        hyprland_command("bind = SUPER, SPACE, voxtype "@ + (w1 + seq![' '] + w2) + ", exec, voxtype "@
            + (w1 + seq![' '] + w2)) matches Some(c) && c.2 == "voxtype "@ + (w1 + seq![' '] + w2),
{
    let a = w1 + seq![' '] + w2;
    reveal_strlit("bind = SUPER, SPACE, voxtype ");
    reveal_strlit(", exec, voxtype ");
    reveal_strlit("bind");
    reveal_strlit(" SUPER");
    reveal_strlit(" SPACE");
    reveal_strlit(" exec");
    reveal_strlit(" voxtype ");
    let f2 = " voxtype "@ + a;
    assert(absent(a, ',', 0, a.len() as int)) by {
        assert forall|j: int| 0 <= j < a.len() implies a[j] != ',' by {
            if j < w1.len() {
                assert(a[j] == w1[j]);
            } else if j > w1.len() {
                assert(a[j] == w2[j - w1.len() - 1]);
            }
        }
    }
    assert(absent(f2, ',', 0, f2.len() as int)) by {
        assert forall|j: int| 0 <= j < f2.len() implies f2[j] != ',' by {
            if j >= 9 {
                assert(f2[j] == a[j - 9]);
            }
        }
    }
    assert(a.last() == w2.last());
    assert(!is_ws(w2[w2.len() - 1]));
    assert("bind = SUPER, SPACE, voxtype "@ + a + ", exec, voxtype "@ + a =~= "bind"@ + seq![' ']
        + seq!['='] + (" SUPER"@ + seq![','] + " SPACE"@ + seq![','] + f2 + seq![','] + " exec"@
        + seq![','] + (" voxtype "@ + a)));
    assert("bind"@.take(4) =~= bind_chars());
    lemma_hyprland_line("bind"@, seq![' '], " SUPER"@, " SPACE"@, f2, " exec"@, a);
}

/// The Sway line suggested for a two-word action.
#[verifier::spinoff_prover]
proof fn lemma_sway_single(w1: Seq<char>, w2: Seq<char>)
    requires
        plain_word(w1),
        plain_word(w2),
    ensures
        sway_command("bindsym Mod4+space exec voxtype "@ + (w1 + seq![' '] + w2)) matches Some(c)
            && c.1 == "voxtype "@ + (w1 + seq![' '] + w2),
{
    reveal_strlit("bindsym Mod4+space exec voxtype ");
    reveal_strlit("bindsym");
    reveal_strlit("Mod4+space");
    reveal_strlit("exec");
    reveal_strlit("voxtype");
    let flags = Seq::<Seq<char>>::empty();
    let ws = seq!["bindsym"@, "Mod4+space"@, "exec"@, "voxtype"@, w1, w2];
    assert(seq!["bindsym"@] + flags + seq!["Mod4+space"@, "exec"@, "voxtype"@, w1, w2] =~= ws);
    lemma_join_cons(w1, seq![w2]);
    assert(join_words(seq![w2]) == w2);
    assert(seq![w1] + seq![w2] =~= seq![w1, w2]);
    lemma_join_cons("voxtype"@, seq![w1, w2]);
    assert(seq!["voxtype"@] + seq![w1, w2] =~= seq!["voxtype"@, w1, w2]);
    lemma_join_cons("exec"@, seq!["voxtype"@, w1, w2]);
    assert(seq!["exec"@] + seq!["voxtype"@, w1, w2] =~= seq!["exec"@, "voxtype"@, w1, w2]);
    lemma_join_cons("Mod4+space"@, seq!["exec"@, "voxtype"@, w1, w2]);
    assert(seq!["Mod4+space"@] + seq!["exec"@, "voxtype"@, w1, w2] =~= seq!["Mod4+space"@, "exec"@, "voxtype"@, w1, w2]);
    lemma_join_cons("bindsym"@, seq!["Mod4+space"@, "exec"@, "voxtype"@, w1, w2]);
    assert(seq!["bindsym"@] + seq!["Mod4+space"@, "exec"@, "voxtype"@, w1, w2] =~= ws);
    assert(join_words(ws) =~= "bindsym Mod4+space exec voxtype "@ + (w1 + seq![' '] + w2));
    lemma_sway_line(flags, "Mod4+space"@, w1, w2);
}

/// The words of a known action.
proof fn lemma_action_words(a: Seq<char>) -> (r: (Seq<char>, Seq<char>))
    requires
        known_action(a),
    ensures
        a == r.0 + seq![' '] + r.1,
        plain_word(r.0),
        plain_word(r.1),
        absent(r.0, ',', 0, r.0.len() as int),
        absent(r.1, ',', 0, r.1.len() as int),
        known_action(r.0 + seq![' '] + r.1),
        lower_word(r.0),
        lower_word(r.1),
{
    reveal_strlit("record");
    reveal_strlit("meeting");
    reveal_strlit("start");
    reveal_strlit("stop");
    reveal_strlit("toggle");
    reveal_strlit("cancel");
    reveal_strlit("pause");
    reveal_strlit("resume");
    reveal_strlit("record start");
    reveal_strlit("record stop");
    reveal_strlit("record toggle");
    reveal_strlit("record cancel");
    reveal_strlit("meeting start");
    reveal_strlit("meeting stop");
    reveal_strlit("meeting pause");
    reveal_strlit("meeting resume");
    let r = if a == "record start"@ {
        ("record"@, "start"@)
    } else if a == "record stop"@ {
        ("record"@, "stop"@)
    } else if a == "record toggle"@ {
        ("record"@, "toggle"@)
    } else if a == "record cancel"@ {
        ("record"@, "cancel"@)
    } else if a == "meeting start"@ {
        ("meeting"@, "start"@)
    } else if a == "meeting stop"@ {
        ("meeting"@, "stop"@)
    } else if a == "meeting pause"@ {
        ("meeting"@, "pause"@)
    } else {
        ("meeting"@, "resume"@)
    };
    assert(a =~= r.0 + seq![' '] + r.1);
    r
}

/// A word of lowercase ASCII letters.
pub open spec fn lower_word(w: Seq<char>) -> bool {
    w.len() > 0 && forall|j: int| 0 <= j < w.len() ==> 'a' <= #[trigger] w[j] && w[j] <= 'z'
}

/// The command `voxtype w1 w2`, for words of lowercase ASCII letters that
/// make a known action, is in the lookup's domain and invokes that action.
#[verifier::rlimit(40)]
#[verifier::spinoff_prover]
proof fn lemma_command_action(w1: Seq<char>, w2: Seq<char>)
    requires
        lower_word(w1),
        lower_word(w2),
        known_action(w1 + seq![' '] + w2),
    ensures
        command_in_domain("voxtype "@ + (w1 + seq![' '] + w2)),
        command_action("voxtype "@ + (w1 + seq![' '] + w2)) == Some(w1 + seq![' '] + w2),
{
    reveal_strlit("voxtype ");
    let a = w1 + seq![' '] + w2;
    let cmd = "voxtype "@ + a;
    let n1 = w1.len() as int;
    assert forall|j: int| 0 <= j < cmd.len() implies '\0' <= #[trigger] cmd[j] <= '\u{7f}'
        && ascii_lower(cmd[j]) == cmd[j] by {
        if j >= 8 {
            assert(cmd[j] == a[j - 8]);
            if j - 8 < n1 {
                assert(a[j - 8] == w1[j - 8]);
            } else if j - 8 > n1 {
                assert(a[j - 8] == w2[j - 8 - n1 - 1]);
            }
        }
    }
    assert(is_ascii_chars(cmd));
    assert(lowercase(cmd) =~= cmd);
    let bytes = encode_utf8(cmd);
    is_ascii_chars_encode_utf8(cmd);
    assert(bytes.subrange(0, 7) =~= voxtype_bytes()) by {
        assert forall|j: int| 0 <= j < 7 implies bytes.subrange(0, 7)[j] == voxtype_bytes()[j] by {
            assert(bytes[j] == cmd[j] as u8);
        }
    }
    lemma_find_at(bytes, voxtype_bytes(), 0);
    assert(voxtype_offset_in(cmd) == Some(0int));
    assert(bytes[7] == cmd[7] as u8);
    assert(cmd[7] == ' ');
    encode_utf8_valid_utf8(cmd);
    is_char_boundary_iff_not_is_continuation_byte(bytes, 7);
    assert(is_char_boundary(bytes, 7));
    let rest = cmd.skip(7);
    assert(is_ascii_chars(rest));
    is_ascii_chars_encode_utf8(rest);
    assert(bytes.skip(7) =~= encode_utf8(rest)) by {
        assert forall|j: int| 0 <= j < rest.len() implies bytes.skip(7)[j] == encode_utf8(rest)[j] by {
            assert(bytes[j + 7] == cmd[j + 7] as u8);
            assert(encode_utf8(rest)[j] == rest[j] as u8);
        }
    }
    encode_utf8_decode_utf8(rest);
    assert(rest =~= seq![' '] + w1 + seq![' '] + w2);
    assert forall|j: int| 0 <= j < w1.len() implies !is_ws(#[trigger] w1[j]) by {}
    assert forall|j: int| 0 <= j < w2.len() implies !is_ws(#[trigger] w2[j]) by {}
    lemma_words_push(Seq::empty(), w1);
    assert(Seq::<char>::empty() + seq![' '] + w1 =~= seq![' '] + w1);
    assert(words(Seq::<char>::empty()) =~= Seq::<Seq<char>>::empty());
    lemma_words_push(seq![' '] + w1, w2);
    assert(words(rest) =~= seq![w1, w2]);
    assert(alphanumeric(w1[0]) && alphanumeric(w1.last()));
    assert(alphanumeric(w2[0]) && alphanumeric(w2.last()));
    assert(trim_non_alnum(w1) == w1);
    assert(trim_non_alnum(w2) == w2);
}

/// The action each config line of a suggestion binds, or nothing for a
/// comment line.
pub open spec fn suggested_actions(comp: Compositor, action: Seq<char>, shape: BindShape) -> Seq<
    Option<Seq<char>>,
> {
    match (comp, shape) {
        (_, BindShape::Single) => seq![Some(action)],
        (_, BindShape::PttPress) => seq![Some("record start"@)],
        (Compositor::Niri, BindShape::PttRelease) => seq![None],
        (_, BindShape::PttRelease) => seq![Some("record stop"@)],
        (Compositor::Niri, BindShape::PttPair) => seq![Some("record toggle"@), None],
        (_, BindShape::PttPair) => seq![Some("record start"@), Some("record stop"@)],
        (_, BindShape::MeetingPair) => seq![Some("meeting start"@), Some("meeting stop"@)],
    }
}

/// The scanner of `comp` finds `line` binding `action` (the line scan that
/// `hyprland_bindings`, `sway_bindings` and `niri_bindings` apply to every
/// line of a config file).
pub open spec fn found_again(comp: Compositor, line: Seq<char>, action: Seq<char>) -> bool {
    match comp {
        Compositor::Niri => niri_line_spec(line) matches Some(b) && b.1 == action,
        Compositor::Hyprland => hyprland_scan_line(line) matches Some(b) && b.1 == action,
        Compositor::Sway => sway_scan_line(line) matches Some(b) && b.1 == action,
    }
}

/// Each config line of the suggestion is either a comment (where
/// `suggested_actions` has nothing) or found again binding its known action.
pub open spec fn lines_found_again(comp: Compositor, action: Seq<char>, shape: BindShape) -> bool {
    let lines = render_lines_spec(comp, action, shape);
    let acts = suggested_actions(comp, action, shape);
    &&& lines.len() == acts.len()
    &&& forall|i: int|
        0 <= i < acts.len() ==> match #[trigger] acts[i] {
            None => starts_with(lines[i], seq!['/', '/']),
            Some(a) => known_action(a) && found_again(comp, lines[i], a),
        }
}

/// Every config line suggested for a missing binding is found again by the
/// scanner of its compositor, binding the action it was written for (a
/// single binding binds the action asked for); the other lines are
/// comments.
#[verifier::spinoff_prover]
pub proof fn law_suggestions_found_again(comp: Compositor, action: Seq<char>, shape: BindShape)
    requires
        shape == BindShape::Single ==> known_action(action),
    ensures
        lines_found_again(comp, action, shape),
{
    reveal_strlit("record start");
    reveal_strlit("record stop");
    reveal_strlit("record toggle");
    reveal_strlit("meeting start");
    reveal_strlit("meeting stop");
    let lines = render_lines_spec(comp, action, shape);
    let acts = suggested_actions(comp, action, shape);
    match shape {
        BindShape::Single => {
            let (w1, w2) = lemma_action_words(action);
            match comp {
                Compositor::Niri => lemma_niri_single(w1, w2),
                Compositor::Hyprland => {
                    lemma_hyprland_single(w1, w2);
                    lemma_command_action(w1, w2);
                },
                Compositor::Sway => {
                    lemma_sway_single(w1, w2);
                    lemma_command_action(w1, w2);
                },
            }
            assert(found_again(comp, lines[0], action));
        },
        _ => {
            match comp {
                Compositor::Niri => {
                    niri_ptt_start();
                    niri_toggle();
                    niri_meeting_start();
                    niri_meeting_stop();
                    reveal_strlit("// Niri does not natively bind on key release; use toggle mode or fall back to a press-only start binding.");
                    reveal_strlit("// (Niri lacks key-release binds; use toggle in place of PTT.)");
                },
                Compositor::Hyprland => {
                    hyprland_ptt_start();
                    hyprland_ptt_stop();
                    hyprland_meeting_start();
                    hyprland_meeting_stop();
                },
                Compositor::Sway => {
                    sway_ptt_start();
                    sway_ptt_stop();
                    sway_meeting_start();
                    sway_meeting_stop();
                },
            }
        },
    }
    assert forall|i: int| 0 <= i < acts.len() implies match #[trigger] acts[i] {
        None => starts_with(lines[i], seq!['/', '/']),
        Some(a) => known_action(a) && found_again(comp, lines[i], a),
    } by {
        if i == 0 {
            assert(lines[0] == render_lines_spec(comp, action, shape)[0]);
        }
        if acts[i] is None {
            assert(lines[i].take(2) =~= seq!['/', '/']);
        }
    }
}

/// A word that can stand for modifiers or a key in a Hyprland binding:
/// not empty, without whitespace or commas.
pub open spec fn key_word(w: Seq<char>) -> bool {
    w.len() > 0 && no_ws(w) && absent(w, ',', 0, w.len() as int)
}

/// `" " + w`, trimmed, is `w`.
proof fn lemma_trim_spaced(w: Seq<char>)
    requires
        w.len() > 0,
        no_ws(w),
    ensures
        trim(seq![' '] + w) == w,
{
    let x = seq![' '] + w;
    assert(is_ws(x[0]));
    assert(x.drop_first() =~= w);
    assert(!is_ws(w[0]));
    assert(trim_start(w) == w);
    assert(trim_start(x) == w);
    assert(!is_ws(w[w.len() - 1]));
    assert(trim_end(w) == w);
}

/// The fields ` mods, key, exec, voxtype <a>` of a four-field Hyprland line.
#[verifier::rlimit(40)]
#[verifier::spinoff_prover]
proof fn lemma_hyprland_four_fields(mods: Seq<char>, key: Seq<char>, w1: Seq<char>, w2: Seq<char>)
    requires
        mods.len() == 0 || key_word(mods),
        key_word(key),
        lower_word(w1),
        lower_word(w2),
    ensures
        ({
            let a = w1 + seq![' '] + w2;
            let rhs = (seq![' '] + mods) + seq![','] + (seq![' '] + key) + seq![','] + " exec"@
                + seq![','] + (" voxtype "@ + a);
            &&& contains(rhs, voxtype_chars())
            &&& split_char(rhs, ',') == seq![seq![' '] + mods, seq![' '] + key, " exec"@, " voxtype "@ + a]
            &&& trim(seq![' '] + mods) == mods
            &&& trim(seq![' '] + key) == key
            &&& trim(" voxtype "@ + a) == "voxtype "@ + a
        }),
{
    reveal_strlit(" voxtype ");
    reveal_strlit("voxtype ");
    reveal_strlit(" exec");
    let a = w1 + seq![' '] + w2;
    assert(a.last() == w2.last());
    assert(!is_ws(w2[w2.len() - 1]));
    assert forall|j: int| 0 <= j < a.len() implies a[j] != ',' by {
        if j < w1.len() {
            assert(a[j] == w1[j]);
        } else if j > w1.len() {
            assert(a[j] == w2[j - w1.len() - 1]);
        }
    }
    let f0 = seq![' '] + mods;
    let f1 = seq![' '] + key;
    let f2 = " exec"@;
    let f3 = " voxtype "@ + a;
    assert(absent(f0, ',', 0, f0.len() as int)) by {
        assert forall|j: int| 0 <= j < f0.len() implies f0[j] != ',' by {
            if j > 0 {
                assert(f0[j] == mods[j - 1]);
            }
        }
    }
    assert(absent(f1, ',', 0, f1.len() as int)) by {
        assert forall|j: int| 0 <= j < f1.len() implies f1[j] != ',' by {
            if j > 0 {
                assert(f1[j] == key[j - 1]);
            }
        }
    }
    assert(absent(f3, ',', 0, f3.len() as int)) by {
        assert forall|j: int| 0 <= j < f3.len() implies f3[j] != ',' by {
            if j >= 9 {
                assert(f3[j] == a[j - 9]);
            }
        }
    }
    let r2 = f2 + seq![','] + f3;
    let r1 = f1 + seq![','] + r2;
    let rhs = f0 + seq![','] + f1 + seq![','] + f2 + seq![','] + f3;
    assert(rhs =~= f0 + seq![','] + r1);
    let k = rhs.len() - f3.len() + 1;
    assert(rhs.subrange(k, k + 7) =~= voxtype_chars());
    lemma_contains_at(rhs, voxtype_chars(), k);
    lemma_split_none(f0, ',');
    lemma_split_none(f1, ',');
    lemma_split_none(f2, ',');
    lemma_split_none(f3, ',');
    lemma_split_concat(f2, ',', f3);
    lemma_split_concat(f1, ',', r2);
    lemma_split_concat(f0, ',', r1);
    assert(split_char(rhs, ',') =~= seq![f0, f1, f2, f3]);
    if mods.len() == 0 {
        assert(f0.drop_first() =~= mods);
        assert(is_ws(f0[0]));
        assert(trim_start(mods) == mods);
        assert(trim_start(f0) == trim_start(f0.drop_first()));
        assert(trim_end(mods) == mods);
    } else {
        lemma_trim_spaced(mods);
    }
    lemma_trim_spaced(key);
    assert(trim_start(f3) == "voxtype "@ + a) by {
        assert(" voxtype "@[0] == ' ');
        assert(is_ws(f3[0]));
        assert(f3.drop_first() =~= "voxtype "@ + a);
        assert(trim_start(f3) == trim_start(f3.drop_first()));
        assert(("voxtype "@ + a)[0] == 'v');
        assert(trim_start("voxtype "@ + a) == "voxtype "@ + a);
    }
    assert(trim_end("voxtype "@ + a) == "voxtype "@ + a) by {
        assert(("voxtype "@ + a).last() == a.last());
    }
}

/// A plain four-field Hyprland line, `bind = MODS, KEY, exec, voxtype A`
/// (no description field), binds `MODS+KEY` to the action `A`, for every
/// known action `A`; with no modifiers (`bind = , KEY, ...`) the keys are
/// `KEY` alone.
#[verifier::rlimit(40)]
#[verifier::spinoff_prover]
pub proof fn law_hyprland_four_field_bind(mods: Seq<char>, key: Seq<char>, w1: Seq<char>, w2: Seq<char>)
    requires
        mods.len() == 0 || key_word(mods),
        key_word(key),
        lower_word(w1),
        lower_word(w2),
        known_action(w1 + seq![' '] + w2),
    ensures
        hyprland_scan_line(
            "bind = "@ + mods + ", "@ + key + ", exec, voxtype "@ + (w1 + seq![' '] + w2),
        ) == Some(
            (
                if mods.len() == 0 {
                    key
                } else {
                    mods + seq!['+'] + key
                },
                w1 + seq![' '] + w2,
            ),
        ),
{
    reveal_strlit("bind = ");
    reveal_strlit(", ");
    reveal_strlit(", exec, voxtype ");
    reveal_strlit("bind");
    reveal_strlit(" exec");
    reveal_strlit(" voxtype ");
    let a = w1 + seq![' '] + w2;
    let rhs = (seq![' '] + mods) + seq![','] + (seq![' '] + key) + seq![','] + " exec"@ + seq![',']
        + (" voxtype "@ + a);
    let l = "bind = "@ + mods + ", "@ + key + ", exec, voxtype "@ + a;
    assert(l =~= "bind"@ + seq![' '] + seq!['='] + rhs);
    lemma_hyprland_four_fields(mods, key, w1, w2);
    assert(no_ws("bind"@));
    lemma_hyprland_head("bind"@, seq![' '], rhs);
    assert(trim(l) == l) by {
        assert(!is_ws(l[0]));
        assert(trim_start(l) == l);
        assert(l.last() == a.last());
        assert(a.last() == w2.last());
        assert(!is_ws(w2[w2.len() - 1]));
    }
    assert(!starts_with(l, seq!['#'])) by {
        assert(l.take(1)[0] == l[0]);
    }
    assert("bind"@.take(4) =~= bind_chars());
    assert(hyprland_command(l) == Some((mods, key, "voxtype "@ + a)));
    lemma_command_action(w1, w2);
}

/// A Hyprland line with only three fields, `bind = MODS, KEY, voxtype A`,
/// declares no binding: a binding needs at least four fields.
#[verifier::rlimit(40)]
#[verifier::spinoff_prover]
pub proof fn law_hyprland_three_fields_ignored(mods: Seq<char>, key: Seq<char>, w1: Seq<char>, w2: Seq<char>)
    requires
        key_word(mods),
        key_word(key),
        lower_word(w1),
        lower_word(w2),
    ensures
        hyprland_scan_line("bind = "@ + mods + ", "@ + key + ", voxtype "@ + (w1 + seq![' '] + w2))
            is None,
{
    reveal_strlit("bind = ");
    reveal_strlit(", ");
    reveal_strlit(", voxtype ");
    reveal_strlit("bind");
    reveal_strlit(" voxtype ");
    let a = w1 + seq![' '] + w2;
    let f0 = seq![' '] + mods;
    let f1 = seq![' '] + key;
    let f3 = " voxtype "@ + a;
    let r1 = f1 + seq![','] + f3;
    let rhs = f0 + seq![','] + r1;
    let l = "bind = "@ + mods + ", "@ + key + ", voxtype "@ + a;
    assert(l =~= "bind"@ + seq![' '] + seq!['='] + rhs);
    assert(absent(f0, ',', 0, f0.len() as int)) by {
        assert forall|j: int| 0 <= j < f0.len() implies f0[j] != ',' by {
            if j > 0 {
                assert(f0[j] == mods[j - 1]);
            }
        }
    }
    assert(absent(f1, ',', 0, f1.len() as int)) by {
        assert forall|j: int| 0 <= j < f1.len() implies f1[j] != ',' by {
            if j > 0 {
                assert(f1[j] == key[j - 1]);
            }
        }
    }
    assert(absent(f3, ',', 0, f3.len() as int)) by {
        assert forall|j: int| 0 <= j < f3.len() implies f3[j] != ',' by {
            if j >= 9 {
                assert(f3[j] == a[j - 9]);
                if j - 9 < w1.len() {
                    assert(a[j - 9] == w1[j - 9]);
                } else if j - 9 > w1.len() {
                    assert(a[j - 9] == w2[j - 9 - w1.len() - 1]);
                }
            }
        }
    }
    lemma_split_none(f0, ',');
    lemma_split_none(f1, ',');
    lemma_split_none(f3, ',');
    lemma_split_concat(f1, ',', f3);
    lemma_split_concat(f0, ',', r1);
    assert(split_char(rhs, ',').len() == 3);
    assert(no_ws("bind"@));
    lemma_hyprland_head("bind"@, seq![' '], rhs);
    assert(trim(l) == l) by {
        assert(!is_ws(l[0]));
        assert(trim_start(l) == l);
        assert(l.last() == a.last());
        assert(a.last() == w2.last());
        assert(!is_ws(w2[w2.len() - 1]));
    }
    assert(!starts_with(l, seq!['#'])) by {
        assert(l.take(1)[0] == l[0]);
    }
    assert(hyprland_command(l) is None);
}

/// What the line scanner of `comp` finds on a line.
pub open spec fn scan_line(comp: Compositor, line: Seq<char>) -> Option<(Seq<char>, Seq<char>)> {
    match comp {
        Compositor::Hyprland => hyprland_scan_line(line),
        Compositor::Sway => sway_scan_line(line),
        Compositor::Niri => niri_line_spec(line),
    }
}

/// Every config line of the suggestions, scanned by the detector of
/// `comp`, finds only actions that the bindings `bs` do not bind yet.
pub open spec fn suggests_only_unbound(
    sug: Seq<SuggestionView>,
    comp: Compositor,
    bs: Seq<Binding>,
) -> bool {
    forall|i: int, k: int|
        0 <= i < sug.len() && 0 <= k < sug[i].2.len() ==> ((#[trigger] scan_line(comp, sug[i].2[k]))
            matches Some(b) ==> !has_action(bs, b.1))
}

/// The Niri comment lines are found by no scan.
proof fn lemma_niri_comments()
    ensures
        niri_line_spec(
            "// Niri does not natively bind on key release; use toggle mode or fall back to a press-only start binding."@,
        ) is None,
        niri_line_spec("// (Niri lacks key-release binds; use toggle in place of PTT.)"@) is None,
{
    let c1 = "// Niri does not natively bind on key release; use toggle mode or fall back to a press-only start binding."@;
    let c2 = "// (Niri lacks key-release binds; use toggle in place of PTT.)"@;
    reveal_strlit("// Niri does not natively bind on key release; use toggle mode or fall back to a press-only start binding.");
    reveal_strlit("// (Niri lacks key-release binds; use toggle in place of PTT.)");
    assert(!is_ws(c1[0]) && !is_ws(c1.last()));
    assert(trim_start(c1) == c1);
    assert(trim_end(c1) == c1);
    assert(c1.take(2) =~= seq!['/', '/']);
    assert(!is_ws(c2[0]) && !is_ws(c2.last()));
    assert(trim_start(c2) == c2);
    assert(trim_end(c2) == c2);
    assert(c2.take(2) =~= seq!['/', '/']);
}

/// One suggestion whose lines are those rendered for `action` in `shape`,
/// when none of the actions they are written for is bound yet.
proof fn lemma_piece_unbound(
    comp: Compositor,
    label: Seq<char>,
    purpose: Seq<char>,
    action: Seq<char>,
    shape: BindShape,
    bs: Seq<Binding>,
)
    requires
        shape == BindShape::Single ==> known_action(action),
        forall|j: int|
            0 <= j < suggested_actions(comp, action, shape).len() ==> (#[trigger] suggested_actions(
                comp,
                action,
                shape,
            )[j] matches Some(a) ==> !has_action(bs, a)),
    ensures
        suggests_only_unbound(seq![(label, purpose, render_lines_spec(comp, action, shape))], comp, bs),
{
    law_suggestions_found_again(comp, action, shape);
    lemma_niri_comments();
    reveal_strlit("// Niri does not natively bind on key release; use toggle mode or fall back to a press-only start binding.");
    reveal_strlit("// (Niri lacks key-release binds; use toggle in place of PTT.)");
    let lines = render_lines_spec(comp, action, shape);
    let acts = suggested_actions(comp, action, shape);
    let sug = seq![(label, purpose, lines)];
    assert forall|i: int, k: int|
        0 <= i < sug.len() && 0 <= k < sug[i].2.len() implies ((#[trigger] scan_line(comp, sug[i].2[k]))
            matches Some(b) ==> !has_action(bs, b.1)) by {
        assert(sug[i].2 == lines);
        let m = acts[k];
        if m is None {
            assert(comp == Compositor::Niri);
            assert(shape == BindShape::PttRelease || shape == BindShape::PttPair);
        } else {
            assert(found_again(comp, lines[k], m->0));
        }
    }
}

proof fn lemma_unbound_concat(a: Seq<SuggestionView>, b: Seq<SuggestionView>, comp: Compositor, bs: Seq<Binding>)
    requires
        suggests_only_unbound(a, comp, bs),
        suggests_only_unbound(b, comp, bs),
    ensures
        suggests_only_unbound(a + b, comp, bs),
{
    let c = a + b;
    assert forall|i: int, k: int|
        0 <= i < c.len() && 0 <= k < c[i].2.len() implies ((#[trigger] scan_line(comp, c[i].2[k]))
            matches Some(x) ==> !has_action(bs, x.1)) by {
        if i < a.len() {
            assert(c[i] == a[i]);
            assert(scan_line(comp, a[i].2[k]) == scan_line(comp, c[i].2[k]));
        } else {
            assert(c[i] == b[i - a.len()]);
            assert(scan_line(comp, b[i - a.len()].2[k]) == scan_line(comp, c[i].2[k]));
        }
    }
}

/// Every config line that `suggest_missing` suggests, scanned by the
/// detector of the compositor it is written for, binds only actions that
/// are not bound yet: a suggestion never repeats a binding the user has.
#[verifier::rlimit(60)]
#[verifier::spinoff_prover]
pub proof fn law_suggestions_only_unbound(bs: Seq<Binding>)
    ensures
        suggests_only_unbound(suggest_missing_spec(bs), dominant_spec(bs), bs),
{
    reveal_strlit("record start");
    reveal_strlit("record stop");
    reveal_strlit("record toggle");
    reveal_strlit("record cancel");
    reveal_strlit("meeting start");
    reveal_strlit("meeting stop");
    let comp = dominant_spec(bs);
    let has_start = has_action(bs, "record start"@);
    let has_stop = has_action(bs, "record stop"@);
    let has_toggle = has_action(bs, "record toggle"@);
    let has_cancel = has_action(bs, "record cancel"@);
    let has_meeting_start = has_action(bs, "meeting start"@);
    let has_meeting_stop = has_action(bs, "meeting stop"@);

    let stop: Seq<SuggestionView> = if has_start && !has_stop {
        seq![
            (
                "Stop (release of your PTT key)"@,
                STOP_PURPOSE@,
                render_lines_spec(comp, "record stop"@, BindShape::PttRelease),
            ),
        ]
    } else {
        Seq::empty()
    };
    let start: Seq<SuggestionView> = if has_stop && !has_start {
        seq![
            (
                "Start (press of your PTT key)"@,
                START_PURPOSE@,
                render_lines_spec(comp, "record start"@, BindShape::PttPress),
            ),
        ]
    } else {
        Seq::empty()
    };
    let flows: Seq<SuggestionView> = if !has_start && !has_stop && !has_toggle {
        seq![
            (
                "Push-to-talk (start + stop pair)"@,
                PTT_PURPOSE@,
                render_lines_spec(comp, "record start/stop"@, BindShape::PttPair),
            ),
            (
                "Toggle (single-key alternative)"@,
                TOGGLE_PURPOSE@,
                render_lines_spec(comp, "record toggle"@, BindShape::Single),
            ),
        ]
    } else if !has_toggle && (has_start || has_stop) {
        seq![
            (
                "Toggle (alternative to PTT)"@,
                TOGGLE_ALT_PURPOSE@,
                render_lines_spec(comp, "record toggle"@, BindShape::Single),
            ),
        ]
    } else {
        Seq::empty()
    };
    let cancel: Seq<SuggestionView> = if !has_cancel {
        seq![
            (
                "Cancel (abort in-progress recording)"@,
                CANCEL_PURPOSE@,
                render_lines_spec(comp, "record cancel"@, BindShape::Single),
            ),
        ]
    } else {
        Seq::empty()
    };
    let meeting: Seq<SuggestionView> = if !has_meeting_start && !has_meeting_stop {
        seq![
            (
                "Meeting mode (start + stop)"@,
                MEETING_PURPOSE@,
                render_lines_spec(comp, "meeting start/stop"@, BindShape::MeetingPair),
            ),
        ]
    } else if has_meeting_start && !has_meeting_stop {
        seq![
            (
                "Meeting stop"@,
                MEETING_STOP_PURPOSE@,
                render_lines_spec(comp, "meeting stop"@, BindShape::Single),
            ),
        ]
    } else if has_meeting_stop && !has_meeting_start {
        seq![
            (
                "Meeting start"@,
                MEETING_START_PURPOSE@,
                render_lines_spec(comp, "meeting start"@, BindShape::Single),
            ),
        ]
    } else {
        Seq::empty()
    };

    assert(suggest_missing_spec(bs) == stop + start + flows + cancel + meeting);
    let e = Seq::<SuggestionView>::empty();
    if has_start && !has_stop {
        lemma_piece_unbound(comp, stop[0].0, stop[0].1, "record stop"@, BindShape::PttRelease, bs);
        assert(stop =~= seq![stop[0]]);
    } else {
        assert(stop =~= e);
    }
    if has_stop && !has_start {
        lemma_piece_unbound(comp, start[0].0, start[0].1, "record start"@, BindShape::PttPress, bs);
        assert(start =~= seq![start[0]]);
    } else {
        assert(start =~= e);
    }
    if !has_start && !has_stop && !has_toggle {
        lemma_piece_unbound(comp, flows[0].0, flows[0].1, "record start/stop"@, BindShape::PttPair, bs);
        lemma_piece_unbound(comp, flows[1].0, flows[1].1, "record toggle"@, BindShape::Single, bs);
        assert(flows =~= seq![flows[0]] + seq![flows[1]]);
        lemma_unbound_concat(seq![flows[0]], seq![flows[1]], comp, bs);
    } else if !has_toggle && (has_start || has_stop) {
        lemma_piece_unbound(comp, flows[0].0, flows[0].1, "record toggle"@, BindShape::Single, bs);
        assert(flows =~= seq![flows[0]]);
    } else {
        assert(flows =~= e);
    }
    if !has_cancel {
        lemma_piece_unbound(comp, cancel[0].0, cancel[0].1, "record cancel"@, BindShape::Single, bs);
        assert(cancel =~= seq![cancel[0]]);
    } else {
        assert(cancel =~= e);
    }
    if !has_meeting_start && !has_meeting_stop {
        lemma_piece_unbound(comp, meeting[0].0, meeting[0].1, "meeting start/stop"@, BindShape::MeetingPair, bs);
        assert(meeting =~= seq![meeting[0]]);
    } else if has_meeting_start && !has_meeting_stop {
        lemma_piece_unbound(comp, meeting[0].0, meeting[0].1, "meeting stop"@, BindShape::Single, bs);
        assert(meeting =~= seq![meeting[0]]);
    } else if has_meeting_stop && !has_meeting_start {
        lemma_piece_unbound(comp, meeting[0].0, meeting[0].1, "meeting start"@, BindShape::Single, bs);
        assert(meeting =~= seq![meeting[0]]);
    } else {
        assert(meeting =~= e);
    }
    lemma_unbound_concat(stop, start, comp, bs);
    lemma_unbound_concat(stop + start, flows, comp, bs);
    lemma_unbound_concat(stop + start + flows, cancel, comp, bs);
    lemma_unbound_concat(stop + start + flows + cancel, meeting, comp, bs);
}

/// Some config line of the suggestions, scanned by the detector of `comp`,
/// binds `action`.
pub open spec fn suggests_action(sug: Seq<SuggestionView>, comp: Compositor, action: Seq<char>) -> bool {
    exists|i: int, k: int|
        0 <= i < sug.len() && 0 <= k < sug[i].2.len() && ((#[trigger] scan_line(comp, sug[i].2[k]))
            matches Some(b) && b.1 == action)
}

/// Line `k` of the suggestion piece `p` is found binding `action`.
proof fn lemma_piece_finds(
    comp: Compositor,
    action: Seq<char>,
    shape: BindShape,
    k: int,
    found: Seq<char>,
)
    requires
        shape == BindShape::Single ==> known_action(action),
        0 <= k < suggested_actions(comp, action, shape).len(),
        suggested_actions(comp, action, shape)[k] == Some(found),
    ensures
        0 <= k < render_lines_spec(comp, action, shape).len(),
        scan_line(comp, render_lines_spec(comp, action, shape)[k]) matches Some(b) && b.1 == found,
{
    law_suggestions_found_again(comp, action, shape);
    assert(found_again(comp, render_lines_spec(comp, action, shape)[k], found));
}

/// Whatever of toggle, cancel, meeting start and meeting stop is not bound
/// yet, some suggested config line binds it; so does a line for the press
/// of a push-to-talk key whose release alone is bound, and (outside Niri,
/// which cannot bind a key release) for the release of one whose press
/// alone is bound.
#[verifier::rlimit(60)]
#[verifier::spinoff_prover]
pub proof fn law_missing_actions_suggested(bs: Seq<Binding>)
    ensures
        !has_action(bs, "record toggle"@) ==> suggests_action(
            suggest_missing_spec(bs),
            dominant_spec(bs),
            "record toggle"@,
        ),
        !has_action(bs, "record cancel"@) ==> suggests_action(
            suggest_missing_spec(bs),
            dominant_spec(bs),
            "record cancel"@,
        ),
        !has_action(bs, "meeting start"@) ==> suggests_action(
            suggest_missing_spec(bs),
            dominant_spec(bs),
            "meeting start"@,
        ),
        !has_action(bs, "meeting stop"@) ==> suggests_action(
            suggest_missing_spec(bs),
            dominant_spec(bs),
            "meeting stop"@,
        ),
        has_action(bs, "record stop"@) && !has_action(bs, "record start"@) ==> suggests_action(
            suggest_missing_spec(bs),
            dominant_spec(bs),
            "record start"@,
        ),
        has_action(bs, "record start"@) && !has_action(bs, "record stop"@) && dominant_spec(bs)
            != Compositor::Niri ==> suggests_action(
            suggest_missing_spec(bs),
            dominant_spec(bs),
            "record stop"@,
        ),
{
    reveal_strlit("record start");
    reveal_strlit("record stop");
    reveal_strlit("record toggle");
    reveal_strlit("record cancel");
    reveal_strlit("meeting start");
    reveal_strlit("meeting stop");
    let comp = dominant_spec(bs);
    let has_start = has_action(bs, "record start"@);
    let has_stop = has_action(bs, "record stop"@);
    let has_toggle = has_action(bs, "record toggle"@);
    let has_cancel = has_action(bs, "record cancel"@);
    let has_meeting_start = has_action(bs, "meeting start"@);
    let has_meeting_stop = has_action(bs, "meeting stop"@);
    let sug = suggest_missing_spec(bs);
    let n_stop: int = if has_start && !has_stop { 1 } else { 0 };
    let n_start: int = if has_stop && !has_start { 1 } else { 0 };
    let n_flows: int = if !has_start && !has_stop && !has_toggle {
        2
    } else if !has_toggle && (has_start || has_stop) {
        1
    } else {
        0
    };
    let n_cancel: int = if !has_cancel { 1 } else { 0 };
    if has_start && !has_stop && comp != Compositor::Niri {
        lemma_piece_finds(comp, "record stop"@, BindShape::PttRelease, 0, "record stop"@);
        assert(scan_line(comp, sug[0].2[0]) matches Some(b) && b.1 == "record stop"@);
    }
    if has_stop && !has_start {
        lemma_piece_finds(comp, "record start"@, BindShape::PttPress, 0, "record start"@);
        assert(scan_line(comp, sug[n_stop].2[0]) matches Some(b) && b.1 == "record start"@);
    }
    if !has_toggle {
        let i = n_stop + n_start + n_flows - 1;
        lemma_piece_finds(comp, "record toggle"@, BindShape::Single, 0, "record toggle"@);
        assert(scan_line(comp, sug[i].2[0]) matches Some(b) && b.1 == "record toggle"@);
    }
    if !has_cancel {
        let i = n_stop + n_start + n_flows;
        lemma_piece_finds(comp, "record cancel"@, BindShape::Single, 0, "record cancel"@);
        assert(scan_line(comp, sug[i].2[0]) matches Some(b) && b.1 == "record cancel"@);
    }
    let i = n_stop + n_start + n_flows + n_cancel;
    if !has_meeting_start && !has_meeting_stop {
        lemma_piece_finds(comp, "meeting start/stop"@, BindShape::MeetingPair, 0, "meeting start"@);
        lemma_piece_finds(comp, "meeting start/stop"@, BindShape::MeetingPair, 1, "meeting stop"@);
        assert(scan_line(comp, sug[i].2[0]) matches Some(b) && b.1 == "meeting start"@);
        assert(scan_line(comp, sug[i].2[1]) matches Some(b) && b.1 == "meeting stop"@);
    } else if has_meeting_start && !has_meeting_stop {
        lemma_piece_finds(comp, "meeting stop"@, BindShape::Single, 0, "meeting stop"@);
        assert(scan_line(comp, sug[i].2[0]) matches Some(b) && b.1 == "meeting stop"@);
    } else if has_meeting_stop && !has_meeting_start {
        lemma_piece_finds(comp, "meeting start"@, BindShape::Single, 0, "meeting start"@);
        assert(scan_line(comp, sug[i].2[0]) matches Some(b) && b.1 == "meeting start"@);
    }
}

/// A single-line Niri binding `KEYS { spawn "voxtype" "W1" "W2"; }` binds
/// `KEYS` to the action `W1 W2`, for every known action.
pub proof fn law_niri_spawn_bind(keys: Seq<char>, w1: Seq<char>, w2: Seq<char>)
    requires
        keys.len() > 0,
        !is_ws(keys[0]),
        !is_ws(keys.last()),
        keys[0] != '/',
        absent(keys, '{', 0, keys.len() as int),
        lower_word(w1),
        lower_word(w2),
        known_action(w1 + seq![' '] + w2),
    ensures
        niri_line_spec(
            keys + " { spawn \"voxtype\" \""@ + w1 + "\" \""@ + w2 + "\"; }"@,
        ) == Some((keys, w1 + seq![' '] + w2)),
{
    lemma_niri_line(keys, w1, w2);
}

/// A Sway binding `bindsym KEYS exec voxtype A` binds `KEYS` to the action
/// `A`, for every known action.
#[verifier::rlimit(40)]
#[verifier::spinoff_prover]
pub proof fn law_sway_exec_bind(keys: Seq<char>, w1: Seq<char>, w2: Seq<char>)
    requires
        keys.len() > 0,
        no_ws(keys),
        keys[0] != '-',
        keys != "exec"@,
        lower_word(w1),
        lower_word(w2),
        known_action(w1 + seq![' '] + w2),
    ensures
        sway_scan_line("bindsym "@ + keys + " exec voxtype "@ + (w1 + seq![' '] + w2)) == Some(
            (keys, w1 + seq![' '] + w2),
        ),
{
    reveal_strlit("bindsym ");
    reveal_strlit(" exec voxtype ");
    reveal_strlit("bindsym");
    reveal_strlit("exec");
    reveal_strlit("voxtype");
    let flags = Seq::<Seq<char>>::empty();
    let ws = seq!["bindsym"@, keys, "exec"@, "voxtype"@, w1, w2];
    assert(seq!["bindsym"@] + flags + seq![keys, "exec"@, "voxtype"@, w1, w2] =~= ws);
    lemma_join_cons(w1, seq![w2]);
    assert(join_words(seq![w2]) == w2);
    assert(seq![w1] + seq![w2] =~= seq![w1, w2]);
    lemma_join_cons("voxtype"@, seq![w1, w2]);
    assert(seq!["voxtype"@] + seq![w1, w2] =~= seq!["voxtype"@, w1, w2]);
    lemma_join_cons("exec"@, seq!["voxtype"@, w1, w2]);
    assert(seq!["exec"@] + seq!["voxtype"@, w1, w2] =~= seq!["exec"@, "voxtype"@, w1, w2]);
    lemma_join_cons(keys, seq!["exec"@, "voxtype"@, w1, w2]);
    assert(seq![keys] + seq!["exec"@, "voxtype"@, w1, w2] =~= seq![keys, "exec"@, "voxtype"@, w1, w2]);
    lemma_join_cons("bindsym"@, seq![keys, "exec"@, "voxtype"@, w1, w2]);
    assert(seq!["bindsym"@] + seq![keys, "exec"@, "voxtype"@, w1, w2] =~= ws);
    assert(join_words(ws) =~= "bindsym "@ + keys + " exec voxtype "@ + (w1 + seq![' '] + w2));
    assert forall|j: int| 0 <= j < w1.len() implies !is_ws(#[trigger] w1[j]) by {}
    assert forall|j: int| 0 <= j < w2.len() implies !is_ws(#[trigger] w2[j]) by {}
    lemma_sway_line(flags, keys, w1, w2);
    lemma_command_action(w1, w2);
    let l = "bindsym "@ + keys + " exec voxtype "@ + (w1 + seq![' '] + w2);
    assert(sway_command(l) == Some((keys, "voxtype "@ + (w1 + seq![' '] + w2))));
}

} // verus!
