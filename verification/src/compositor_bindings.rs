//! Detect `voxtype` bindings declared in compositor configs.
//!
//! Useful when the user has the evdev listener disabled and is relying on
//! compositor-level keybindings to call voxtype. The Hotkey section's About
//! pane shows what bindings are wired up so users can verify their config
//! without leaving the TUI.
//!
//! Supports Hyprland, Sway, and Niri, one config line at a time; the
//! application reads the files and hands their text to the functions here.

use vstd::prelude::*;
use vstd::string::StrSliceExecFns;
use vstd::string::StringExecFns;
use vstd::string::StringSliceAdditionalSpecFns;
use vstd::utf8::{decode_utf8, encode_utf8, encode_utf8_decode_utf8, encode_utf8_valid_utf8, is_char_boundary};
use vstd::utf8::is_ascii_chars;

use crate::text::{
    chars_of, contains, find, index_from, find_from, find_in, lemma_find_from, lemma_split_char_len,
    lines, lines_in, occurs_at, pieces, ranges_within, split_char, split_char_in, starts_with,
    starts_with_in, str_eq, substring, trim, trim_range, words, words_in,
};

pub mod round_trip;

verus! {

broadcast use encode_utf8_valid_utf8;

/// A `voxtype` binding found in a compositor config.
#[derive(Debug, Clone)]
pub struct Binding {
    pub compositor: &'static str,
    /// Human-readable key combo as written in the config (e.g. "SUPER+HOME").
    pub keys: String,
    /// Voxtype subcommand being bound (`record start`, `record cancel`,
    /// `meeting start`, `meeting stop`, …).
    pub action: String,
    /// Path to the file the binding came from, for reporting.
    pub source: String,
}

/// An ASCII letter or digit.
pub open spec fn ascii_alphanumeric(c: char) -> bool {
    ('a' <= c && c <= 'z') || ('A' <= c && c <= 'Z') || ('0' <= c && c <= '9')
}

/// What `char::is_alphanumeric` returns for a character beyond ASCII (its
/// Unicode `Alphabetic` and `Numeric` properties).
pub uninterp spec fn alphanumeric_beyond_ascii(c: char) -> bool;

/// What `char::is_alphanumeric` returns: for an ASCII character, whether it
/// is a letter or a digit; beyond ASCII, what the Unicode tables give.
pub open spec fn alphanumeric(c: char) -> bool {
    if c <= '\u{7f}' {
        ascii_alphanumeric(c)
    } else {
        alphanumeric_beyond_ascii(c)
    }
}

/// The ASCII lowercase of a character: `A`..`Z` become `a`..`z`, every
/// other character stays.
pub open spec fn ascii_lower(c: char) -> char {
    if 'A' <= c && c <= 'Z' {
        ((c as u32) + 32) as char
    } else {
        c
    }
}

/// What `str::to_lowercase` returns for text that is not all ASCII (the
/// Unicode lowercase mapping).
pub uninterp spec fn lowercase_beyond_ascii(s: Seq<char>) -> Seq<char>;

/// What `str::to_lowercase` returns: for ASCII text, its ASCII lowercase;
/// for other text, what the Unicode mapping gives.
pub open spec fn lowercase(s: Seq<char>) -> Seq<char> {
    if is_ascii_chars(s) {
        s.map_values(|c: char| ascii_lower(c))
    } else {
        lowercase_beyond_ascii(s)
    }
}

/// Calls `char::is_alphanumeric`: true for a character with the Unicode
/// `Alphabetic` or `Numeric` property, which among ASCII characters are the
/// letters and the digits. Beyond ASCII the contract only names the result.
#[verifier::external_body]
fn is_alphanumeric(c: char) -> (b: bool)
    ensures
        b == alphanumeric(c),
        c > '\u{7f}' ==> b == alphanumeric_beyond_ascii(c),
{
    c.is_alphanumeric()
}

/// Calls `str::to_lowercase`: the Unicode lowercase mapping, which on ASCII
/// text is the ASCII lowercase (as `str::to_ascii_lowercase` gives it).
/// Beyond ASCII, where the mapping may change the length of the text, the
/// contract only names the result.
#[verifier::external_body]
fn to_lowercase(s: &str) -> (r: String)
    ensures
        r@ == lowercase(s@),
        !is_ascii_chars(s@) ==> r@ == lowercase_beyond_ascii(s@),
{
    s.to_lowercase()
}

/// `voxtype`
pub open spec fn voxtype_chars() -> Seq<char> {
    seq!['v', 'o', 'x', 't', 'y', 'p', 'e']
}

/// The UTF-8 bytes of `voxtype`.
pub open spec fn voxtype_bytes() -> Seq<u8> {
    seq![118u8, 111u8, 120u8, 116u8, 121u8, 112u8, 101u8]
}

/// The actions that voxtype understands.
pub open spec fn known_action(a: Seq<char>) -> bool {
    ||| a == "record start"@
    ||| a == "record stop"@
    ||| a == "record toggle"@
    ||| a == "record cancel"@
    ||| a == "meeting start"@
    ||| a == "meeting stop"@
    ||| a == "meeting pause"@
    ||| a == "meeting resume"@
}

/// `str::trim_start_matches(|c| !c.is_alphanumeric())`.
pub open spec fn trim_start_non_alnum(s: Seq<char>) -> Seq<char>
    decreases s.len(),
{
    if s.len() > 0 && !alphanumeric(s[0]) {
        trim_start_non_alnum(s.drop_first())
    } else {
        s
    }
}

/// `str::trim_end_matches(|c| !c.is_alphanumeric())`.
pub open spec fn trim_end_non_alnum(s: Seq<char>) -> Seq<char>
    decreases s.len(),
{
    if s.len() > 0 && !alphanumeric(s.last()) {
        trim_end_non_alnum(s.drop_last())
    } else {
        s
    }
}

/// `str::trim_matches(|c| !c.is_alphanumeric())`.
pub open spec fn trim_non_alnum(s: Seq<char>) -> Seq<char> {
    trim_end_non_alnum(trim_start_non_alnum(s))
}

/// The byte offset of the first `voxtype` in the lowercased text.
pub open spec fn voxtype_offset_in(lowered: Seq<char>) -> Option<int> {
    find(encode_utf8(lowered), voxtype_bytes())
}

/// The byte offset of the first `voxtype` in the lowercased command.
pub open spec fn voxtype_offset(cmd: Seq<char>) -> Option<int> {
    voxtype_offset_in(lowercase(cmd))
}

/// The action lookup on `cmd`, with `lowered` its lowercase, does not
/// panic: the offset of `voxtype` found in `lowered`, plus its length, is a
/// character boundary of `cmd` itself.
pub open spec fn lowered_in_domain(cmd: Seq<char>, lowered: Seq<char>) -> bool {
    match voxtype_offset_in(lowered) {
        None => true,
        Some(i) => is_char_boundary(encode_utf8(cmd), i + 7),
    }
}

/// The commands on which the action lookup does not panic (lowercasing can
/// change byte lengths, so this can fail on commands with non-ASCII text).
pub open spec fn command_in_domain(cmd: Seq<char>) -> bool {
    lowered_in_domain(cmd, lowercase(cmd))
}

/// The known action `voxtype <subcmd> <leaf>` that `cmd` invokes, with
/// `lowered` its lowercase: the two words of `cmd` after the place of the
/// first `voxtype` in `lowered`, trimmed of non-alphanumeric characters.
pub open spec fn action_in(cmd: Seq<char>, lowered: Seq<char>) -> Option<Seq<char>> {
    match voxtype_offset_in(lowered) {
        None => None,
        Some(i) => {
            let after = decode_utf8(encode_utf8(cmd).skip(i + 7));
            let w = words(after);
            if w.len() < 2 {
                None
            } else {
                let a = trim_non_alnum(w[0]) + seq![' '] + trim_non_alnum(w[1]);
                if known_action(a) {
                    Some(a)
                } else {
                    None
                }
            }
        },
    }
}

/// The known action that a command line invokes: the two words after the
/// first (case-insensitive) `voxtype`, trimmed of non-alphanumeric
/// characters.
pub open spec fn command_action(cmd: Seq<char>) -> Option<Seq<char>> {
    action_in(cmd, lowercase(cmd))
}

/// Whether `action` is one of the actions voxtype understands.
pub fn is_known_action(action: &str) -> (b: bool)
    ensures
        b == known_action(action@),
{
    str_eq(action, "record start") || str_eq(action, "record stop") || str_eq(
        action,
        "record toggle",
    ) || str_eq(action, "record cancel") || str_eq(action, "meeting start") || str_eq(
        action,
        "meeting stop",
    ) || str_eq(action, "meeting pause") || str_eq(action, "meeting resume")
}

/// The first occurrence of `pat` in `b`.
fn find_bytes(b: &[u8], pat: &Vec<u8>) -> (r: Option<usize>)
    ensures
        match r {
            Some(k) => find(b@, pat@) == Some(k as int),
            None => find(b@, pat@) is None,
        },
{
    let n = b.len();
    let m = pat.len();
    let mut i: usize = 0;
    while i <= n
        invariant
            n == b@.len(),
            m == pat@.len(),
            find(b@, pat@) == find_from(b@, pat@, i as int),
        decreases n + 1 - i,
    {
        if m > n - i {
            return None;
        }
        let mut k: usize = 0;
        let mut same = true;
        while k < m
            invariant
                i + m <= n,
                n == b@.len(),
                m == pat@.len(),
                k <= m,
                same == (forall|j: int| 0 <= j < k ==> b@[i + j] == pat@[j]),
            decreases m - k,
        {
            if b[i + k] != pat[k] {
                same = false;
            }
            k = k + 1;
        }
        if same {
            assert(b@.subrange(i as int, i + m) =~= pat@);
            return Some(i);
        }
        assert(!occurs_at(b@, pat@, i as int)) by {
            if occurs_at(b@, pat@, i as int) {
                assert forall|j: int| 0 <= j < m implies b@[i + j] == pat@[j] by {
                    assert(b@.subrange(i as int, i + m)[j] == b@[i + j]);
                }
            }
        }
        if i == n {
            return None;
        }
        i = i + 1;
    }
    None
}

/// The bounds of `v[lo..hi]` trimmed of non-alphanumeric characters.
fn trim_non_alnum_range(v: &Vec<char>, lo: usize, hi: usize) -> (r: (usize, usize))
    requires
        lo <= hi <= v@.len(),
    ensures
        lo <= r.0 <= r.1 <= hi,
        v@.subrange(r.0 as int, r.1 as int) == trim_non_alnum(v@.subrange(lo as int, hi as int)),
{
    let mut i = lo;
    while i < hi && !is_alphanumeric(v[i])
        invariant
            lo <= i <= hi <= v@.len(),
            trim_start_non_alnum(v@.subrange(lo as int, hi as int)) == trim_start_non_alnum(
                v@.subrange(i as int, hi as int),
            ),
        decreases hi - i,
    {
        assert(v@.subrange(i as int, hi as int).drop_first() =~= v@.subrange(
            i + 1,
            hi as int,
        ));
        i = i + 1;
    }
    let mut j = hi;
    while j > i && !is_alphanumeric(v[j - 1])
        invariant
            lo <= i <= j <= hi <= v@.len(),
            trim_end_non_alnum(v@.subrange(i as int, hi as int)) == trim_end_non_alnum(
                v@.subrange(i as int, j as int),
            ),
        decreases j - i,
    {
        assert(v@.subrange(i as int, j as int).drop_last() =~= v@.subrange(
            i as int,
            j - 1,
        ));
        j = j - 1;
    }
    (i, j)
}

/// The known action that `cmd` invokes, given `lowered`, its lowercase;
/// see `action_in`.
pub fn action_in_lowered(cmd: &str, lowered: &str) -> (r: Option<String>)
    requires
        lowered_in_domain(cmd@, lowered@),
    ensures
        match r {
            Some(a) => action_in(cmd@, lowered@) == Some(a@),
            None => action_in(cmd@, lowered@) is None,
        },
{
    let lb = lowered.as_bytes();
    let lb_len = lb.len();
    assert(lb@ == encode_utf8(lowered@));
    let pat: Vec<u8> = vec![118u8, 111u8, 120u8, 116u8, 121u8, 112u8, 101u8];
    assert(pat@ =~= voxtype_bytes());
    match find_bytes(lb, &pat) {
        None => None,
        Some(idx) => {
            proof {
                lemma_find_from(encode_utf8(lowered@), voxtype_bytes(), 0);
                assert(idx + 7 <= lb_len);
            }
            let (_, after) = cmd.split_at(idx + 7);
            proof {
                encode_utf8_decode_utf8(after@);
                assert(after.spec_bytes() =~= encode_utf8(cmd@).skip(idx + 7));
            }
            let av = chars_of(after);
            let ws = words_in(&av, 0, av.len());
            assert(av@.subrange(0, av@.len() as int) =~= av@);
            if ws.len() < 2 {
                return None;
            }
            let (a0, b0) = ws[0];
            let (a1, b1) = ws[1];
            assert(pieces(av@, ws@)[0] == av@.subrange(a0 as int, b0 as int));
            assert(pieces(av@, ws@)[1] == av@.subrange(a1 as int, b1 as int));
            let (x0, y0) = trim_non_alnum_range(&av, a0, b0);
            let (x1, y1) = trim_non_alnum_range(&av, a1, b1);
            let mut action = substring(after, x0, y0);
            action.append(" ");
            let second = substring(after, x1, y1);
            action.append(second.as_str());
            proof {
                reveal_strlit(" ");
            }
            assert(action@ =~= av@.subrange(x0 as int, y0 as int) + seq![' '] + av@.subrange(
                x1 as int,
                y1 as int,
            ));
            if is_known_action(action.as_str()) {
                Some(action)
            } else {
                None
            }
        },
    }
}


/// The known action that a command line invokes, if any; see
/// `command_action`.
pub fn action_from_command(cmd: &str) -> (r: Option<String>)
    requires
        command_in_domain(cmd@),
    ensures
        match r {
            Some(a) => command_action(cmd@) == Some(a@),
            None => command_action(cmd@) is None,
        },
{
    let lc = to_lowercase(cmd);
    action_in_lowered(cmd, lc.as_str())
}

/// Whether the command lookup on `cmd` stays in its domain (see
/// `command_in_domain`).
pub fn command_in_domain_exec(cmd: &str) -> (b: bool)
    ensures
        b == command_in_domain(cmd@),
{
    let lc = to_lowercase(cmd);
    let ls = lc.as_str();
    let lb = ls.as_bytes();
    let lb_len = lb.len();
    assert(lb@ == encode_utf8(lowercase(cmd@)));
    let pat: Vec<u8> = vec![118u8, 111u8, 120u8, 116u8, 121u8, 112u8, 101u8];
    assert(pat@ =~= voxtype_bytes());
    match find_bytes(lb, &pat) {
        None => true,
        Some(idx) => {
            proof {
                lemma_find_from(encode_utf8(lowercase(cmd@)), voxtype_bytes(), 0);
                assert(idx + 7 <= lb_len);
            }
            cmd.is_char_boundary(idx + 7)
        },
    }
}

/// The bindings that a sequence of lines yields, in order, where `f` gives
/// what each line yields.
pub open spec fn collect_bindings(
    ls: Seq<Seq<char>>,
    f: spec_fn(Seq<char>) -> Option<(Seq<char>, Seq<char>)>,
) -> Seq<(Seq<char>, Seq<char>)>
    decreases ls.len(),
{
    if ls.len() == 0 {
        Seq::empty()
    } else {
        let p = collect_bindings(ls.drop_last(), f);
        match f(ls.last()) {
            Some(x) => p.push(x),
            None => p,
        }
    }
}

/// The keys and action of each binding.
pub open spec fn bindings_view(bs: Seq<Binding>) -> Seq<(Seq<char>, Seq<char>)> {
    Seq::new(bs.len(), |i: int| (bs[i].keys@, bs[i].action@))
}

/// Every binding names `compositor` and `source`.
pub open spec fn all_from(bs: Seq<Binding>, compositor: Seq<char>, source: Seq<char>) -> bool {
    forall|i: int|
        0 <= i < bs.len() ==> (#[trigger] bs[i]).compositor@ == compositor && bs[i].source@
            == source
}

/// `bind`
pub open spec fn bind_chars() -> Seq<char> {
    seq!['b', 'i', 'n', 'd']
}

/// What a Hyprland line `bind… = MODS, KEY, NAME, exec, COMMAND` holds before
/// its command is looked at: the trimmed modifiers, key and command, for a
/// line that is no comment, has a `bind…` left of its first `=`, mentions
/// `voxtype` right of it and has at least four comma-separated fields.
pub open spec fn hyprland_command(line: Seq<char>) -> Option<(Seq<char>, Seq<char>, Seq<char>)> {
    let t = trim(line);
    if starts_with(t, seq!['#']) {
        None
    } else {
        match find(t, seq!['=']) {
            None => None,
            Some(i) => {
                let lhs = trim(t.take(i));
                let rhs = t.skip(i + 1);
                if !starts_with(lhs, bind_chars()) || !contains(rhs, voxtype_chars()) {
                    None
                } else {
                    let parts = split_char(rhs, ',');
                    if parts.len() < 4 {
                        None
                    } else {
                        Some((trim(parts[0]), trim(parts[1]), trim(parts.last())))
                    }
                }
            },
        }
    }
}

/// The keys and action of the binding that a Hyprland line declares.
pub open spec fn hyprland_line_spec(line: Seq<char>) -> Option<(Seq<char>, Seq<char>)> {
    match hyprland_command(line) {
        None => None,
        Some((mods, key, cmd)) => match command_action(cmd) {
            None => None,
            Some(a) => Some(
                (
                    if mods.len() == 0 {
                        key
                    } else {
                        mods + seq!['+'] + key
                    },
                    a,
                ),
            ),
        },
    }
}

/// The Hyprland lines that `parse_hyprland_line` accepts (see
/// `command_in_domain`).
pub open spec fn hyprland_line_ok(line: Seq<char>) -> bool {
    match hyprland_command(line) {
        None => true,
        Some((_, _, cmd)) => command_in_domain(cmd),
    }
}

fn hyprland_command_exec(line: &str) -> (r: Option<(String, String, String)>)
    ensures
        match r {
            Some((m, k, c)) => hyprland_command(line@) == Some((m@, k@, c@)),
            None => hyprland_command(line@) is None,
        },
{
    let v = chars_of(line);
    let n = v.len();
    let (a, b) = trim_range(&v, 0, n);
    assert(v@.subrange(0, n as int) =~= line@);
    let ghost t = trim(line@);
    assert(t == v@.subrange(a as int, b as int));
    let hash = vec!['#'];
    assert(hash@ =~= seq!['#']);
    if starts_with_in(&v, a, b, &hash) {
        return None;
    }
    let eq = vec!['='];
    assert(eq@ =~= seq!['=']);
    let i = match find_in(&v, a, b, &eq) {
        Some(i) => i,
        None => return None,
    };
    proof {
        lemma_find_from(t, seq!['='], 0);
    }
    let e = a + i;
    assert(t.take(i as int) =~= v@.subrange(a as int, e as int));
    assert(t.skip(i + 1) =~= v@.subrange(e + 1, b as int));
    let (la, lb) = trim_range(&v, a, e);
    let bind = vec!['b', 'i', 'n', 'd'];
    assert(bind@ =~= bind_chars());
    if !starts_with_in(&v, la, lb, &bind) {
        return None;
    }
    let vox = vec!['v', 'o', 'x', 't', 'y', 'p', 'e'];
    assert(vox@ =~= voxtype_chars());
    if find_in(&v, e + 1, b, &vox).is_none() {
        return None;
    }
    let parts = split_char_in(&v, e + 1, b, ',');
    if parts.len() < 4 {
        return None;
    }
    let last = parts.len() - 1;
    let (p0a, p0b) = parts[0];
    let (p1a, p1b) = parts[1];
    let (pla, plb) = parts[last];
    assert(pieces(v@, parts@)[0] == v@.subrange(p0a as int, p0b as int));
    assert(pieces(v@, parts@)[1] == v@.subrange(p1a as int, p1b as int));
    assert(pieces(v@, parts@).last() == v@.subrange(pla as int, plb as int));
    let (m0, m1) = trim_range(&v, p0a, p0b);
    let (k0, k1) = trim_range(&v, p1a, p1b);
    let (c0, c1) = trim_range(&v, pla, plb);
    Some((substring(line, m0, m1), substring(line, k0, k1), substring(line, c0, c1)))
}

/// Whether `parse_hyprland_line` may be called on `line`.
pub fn hyprland_line_in_domain(line: &str) -> (b: bool)
    ensures
        b == hyprland_line_ok(line@),
{
    match hyprland_command_exec(line) {
        None => true,
        Some((_, _, cmd)) => command_in_domain_exec(cmd.as_str()),
    }
}

/// Hyprland `bindd? = MODS, KEY, NAME, exec, voxtype SUBCMD ACTION` lines
/// (and `bindrd?`, `bindl`, `bindel`, `binde`, `bindle`, …).
pub fn parse_hyprland_line(line: &str, source: &str) -> (r: Option<Binding>)
    requires
        hyprland_line_ok(line@),
    ensures
        match r {
            Some(b) => hyprland_line_spec(line@) == Some((b.keys@, b.action@)) && b.compositor@
                == "Hyprland"@ && b.source@ == source@,
            None => hyprland_line_spec(line@) is None,
        },
{
    let (mods, key, cmd) = match hyprland_command_exec(line) {
        Some(x) => x,
        None => return None,
    };
    let action = match action_from_command(cmd.as_str()) {
        Some(a) => a,
        None => return None,
    };
    let keys = if mods.as_str().is_empty() {
        key
    } else {
        let mut k = mods;
        k.append("+");
        k.append(key.as_str());
        proof {
            reveal_strlit("+");
        }
        k
    };
    Some(Binding { compositor: "Hyprland", keys, action, source: String::from_str(source) })
}

/// The lines of `text`, as strings.
fn text_lines(text: &str) -> (r: Vec<String>)
    ensures
        r@.len() == lines(text@).len(),
        forall|i: int| 0 <= i < r@.len() ==> (#[trigger] r@[i])@ == lines(text@)[i],
{
    let v = chars_of(text);
    let ranges = lines_in(&v);
    let mut out: Vec<String> = Vec::new();
    let mut k: usize = 0;
    while k < ranges.len()
        invariant
            v@ == text@,
            ranges_within(ranges@, 0, v@.len() as int),
            pieces(v@, ranges@) == lines(v@),
            k <= ranges@.len(),
            out@.len() == k,
            forall|i: int| 0 <= i < k ==> (#[trigger] out@[i])@ == lines(text@)[i],
        decreases ranges@.len() - k,
    {
        let (a, b) = ranges[k];
        assert(pieces(v@, ranges@)[k as int] == v@.subrange(a as int, b as int));
        out.push(substring(text, a, b));
        k = k + 1;
    }
    out
}

/// What one Hyprland line contributes when scanning a file: its binding,
/// or nothing for a line that `parse_hyprland_line` is not defined on.
pub open spec fn hyprland_scan_line(l: Seq<char>) -> Option<(Seq<char>, Seq<char>)> {
    if hyprland_line_ok(l) {
        hyprland_line_spec(l)
    } else {
        None
    }
}

/// The (keys, action) pairs found in a Hyprland config file, line by line.
pub open spec fn hyprland_found(text: Seq<char>) -> Seq<(Seq<char>, Seq<char>)> {
    collect_bindings(lines(text), |l: Seq<char>| hyprland_scan_line(l))
}

/// The bindings declared in the text of a Hyprland config file, in order.
/// Lines on which the command lookup would leave its domain are skipped.
pub fn hyprland_bindings(text: &str, source: &str) -> (r: Vec<Binding>)
    ensures
        bindings_view(r@) == hyprland_found(text@),
        all_from(r@, "Hyprland"@, source@),
{
    let ls = text_lines(text);
    let mut out: Vec<Binding> = Vec::new();
    let mut k: usize = 0;
    let ghost f = |l: Seq<char>| hyprland_scan_line(l);
    while k < ls.len()
        invariant
            ls@.len() == lines(text@).len(),
            forall|i: int| 0 <= i < ls@.len() ==> (#[trigger] ls@[i])@ == lines(text@)[i],
            k <= ls@.len(),
            f == (|l: Seq<char>| hyprland_scan_line(l)),
            bindings_view(out@) == collect_bindings(lines(text@).take(k as int), f),
            all_from(out@, "Hyprland"@, source@),
        decreases ls@.len() - k,
    {
        let line = ls[k].as_str();
        assert(lines(text@).take(k + 1).drop_last() =~= lines(text@).take(k as int));
        assert(lines(text@).take(k + 1).last() == line@);
        if hyprland_line_in_domain(line) {
            match parse_hyprland_line(line, source) {
                Some(b) => {
                    let ghost prev = out@;
                    out.push(b);
                    assert(bindings_view(out@) =~= bindings_view(prev).push(
                        (out@.last().keys@, out@.last().action@),
                    ));
                },
                None => {},
            }
        }
        k = k + 1;
    }
    assert(lines(text@).take(k as int) =~= lines(text@));
    out
}


/// The words after the leading ones that start with `--` (flags).
pub open spec fn drop_flags(ws: Seq<Seq<char>>) -> Seq<Seq<char>>
    decreases ws.len(),
{
    if ws.len() > 0 && starts_with(ws[0], seq!['-', '-']) {
        drop_flags(ws.drop_first())
    } else {
        ws
    }
}

/// `ws.join(" ")`.
pub open spec fn join_words(ws: Seq<Seq<char>>) -> Seq<char>
    decreases ws.len(),
{
    if ws.len() == 0 {
        Seq::empty()
    } else if ws.len() == 1 {
        ws[0]
    } else {
        join_words(ws.drop_last()) + seq![' '] + ws.last()
    }
}

/// What a Sway line `bindsym [--flags] KEYS exec COMMAND` holds before its
/// command is looked at: the keys and the command after `exec`, its words
/// joined by single spaces.
pub open spec fn sway_command(line: Seq<char>) -> Option<(Seq<char>, Seq<char>)> {
    let t = trim(line);
    if starts_with(t, seq!['#']) || !contains(t, voxtype_chars()) {
        None
    } else {
        let w = words(t);
        if w.len() == 0 {
            None
        } else if w[0] != "bindsym"@ && w[0] != "bindcode"@ {
            None
        } else {
            let rest = drop_flags(w.drop_first());
            if rest.len() == 0 {
                None
            } else {
                match index_from(rest, "exec"@, 0) {
                    None => None,
                    Some(e) => Some((rest[0], join_words(rest.skip(e + 1)))),
                }
            }
        }
    }
}

/// The keys and action of the binding that a Sway line declares.
pub open spec fn sway_line_spec(line: Seq<char>) -> Option<(Seq<char>, Seq<char>)> {
    match sway_command(line) {
        None => None,
        Some((keys, cmd)) => match command_action(cmd) {
            None => None,
            Some(a) => Some((keys, a)),
        },
    }
}

/// The Sway lines that `parse_sway_line` accepts (see `command_in_domain`).
pub open spec fn sway_line_ok(line: Seq<char>) -> bool {
    match sway_command(line) {
        None => true,
        Some((_, cmd)) => command_in_domain(cmd),
    }
}

fn sway_command_exec(line: &str) -> (r: Option<(String, String)>)
    ensures
        match r {
            Some((k, c)) => sway_command(line@) == Some((k@, c@)),
            None => sway_command(line@) is None,
        },
{
    let v = chars_of(line);
    let n = v.len();
    let (a, b) = trim_range(&v, 0, n);
    assert(v@.subrange(0, n as int) =~= line@);
    let ghost t = trim(line@);
    assert(t == v@.subrange(a as int, b as int));
    let hash = vec!['#'];
    assert(hash@ =~= seq!['#']);
    if starts_with_in(&v, a, b, &hash) {
        return None;
    }
    let vox = vec!['v', 'o', 'x', 't', 'y', 'p', 'e'];
    assert(vox@ =~= voxtype_chars());
    if find_in(&v, a, b, &vox).is_none() {
        return None;
    }
    let ws = words_in(&v, a, b);
    let ghost w = words(t);
    assert(pieces(v@, ws@) == w);
    if ws.len() == 0 {
        return None;
    }
    let (h0, h1) = ws[0];
    assert(w[0] == v@.subrange(h0 as int, h1 as int));
    if !range_eq_str_pub(&v, h0, h1, "bindsym") && !range_eq_str_pub(&v, h0, h1, "bindcode") {
        return None;
    }
    let dash = vec!['-', '-'];
    assert(dash@ =~= seq!['-', '-']);
    let mut j: usize = 1;
    assert(w.drop_first() =~= w.skip(1));
    while j < ws.len()
        invariant
            1 <= j <= ws@.len(),
            pieces(v@, ws@) == w,
            ranges_within(ws@, a as int, b as int),
            b <= v@.len(),
            dash@ == seq!['-', '-'],
            drop_flags(w.drop_first()) == drop_flags(w.skip(j as int)),
        ensures
            1 <= j <= ws@.len(),
            drop_flags(w.drop_first()) == w.skip(j as int),
        decreases ws@.len() - j,
    {
        let (x0, x1) = ws[j];
        assert(w[j as int] == v@.subrange(x0 as int, x1 as int));
        assert(w.skip(j as int)[0] == w[j as int]);
        if !starts_with_in(&v, x0, x1, &dash) {
            break;
        }
        assert(w.skip(j as int).drop_first() =~= w.skip(j + 1));
        j = j + 1;
    }
    let ghost rest = drop_flags(w.drop_first());
    if j == ws.len() {
        return None;
    }
    let (k0, k1) = ws[j];
    assert(rest[0] == v@.subrange(k0 as int, k1 as int));
    let mut e = j;
    while e < ws.len()
        invariant
            j <= e <= ws@.len(),
            pieces(v@, ws@) == w,
            ranges_within(ws@, a as int, b as int),
            b <= v@.len(),
            rest == w.skip(j as int),
            index_from(rest, "exec"@, 0) == index_from(rest, "exec"@, e - j),
        ensures
            j <= e <= ws@.len(),
            index_from(rest, "exec"@, 0) == (if e < ws@.len() {
                Some(e - j)
            } else {
                None::<int>
            }),
        decreases ws@.len() - e,
    {
        let (x0, x1) = ws[e];
        assert(rest[e - j] == v@.subrange(x0 as int, x1 as int));
        if range_eq_str_pub(&v, x0, x1, "exec") {
            break;
        }
        e = e + 1;
    }
    if e == ws.len() {
        return None;
    }
    let mut cmd = String::new();
    let mut i = e + 1;
    let ghost tail = rest.skip(e - j + 1);
    assert(tail =~= w.skip(e + 1));
    assert(cmd@ =~= join_words(tail.take(0)));
    while i < ws.len()
        invariant
            e + 1 <= i <= ws@.len(),
            pieces(v@, ws@) == w,
            ranges_within(ws@, a as int, b as int),
            b <= v@.len(),
            v@ == line@,
            tail == w.skip(e + 1),
            cmd@ == join_words(tail.take(i - e - 1)),
        decreases ws@.len() - i,
    {
        let (x0, x1) = ws[i];
        assert(w[i as int] == v@.subrange(x0 as int, x1 as int));
        let piece = substring(line, x0, x1);
        assert(tail.take(i - e).drop_last() =~= tail.take(i - e - 1));
        assert(tail.take(i - e).last() == w[i as int]);
        if i > e + 1 {
            cmd.append(" ");
            proof {
                reveal_strlit(" ");
            }
        } else {
            assert(tail.take(i - e - 1).len() == 0);
        }
        cmd.append(piece.as_str());
        i = i + 1;
    }
    assert(tail.take(i - e - 1) =~= tail);
    Some((substring(line, k0, k1), cmd))
}

/// Range form of the comparison of `v[lo..hi]` with a string.
fn range_eq_str_pub(v: &Vec<char>, lo: usize, hi: usize, s: &str) -> (r: bool)
    requires
        lo <= hi <= v@.len(),
    ensures
        r == (v@.subrange(lo as int, hi as int) == s@),
{
    crate::text::range_eq_str(v, lo, hi, s)
}

/// Whether `parse_sway_line` may be called on `line`.
pub fn sway_line_in_domain(line: &str) -> (b: bool)
    ensures
        b == sway_line_ok(line@),
{
    match sway_command_exec(line) {
        None => true,
        Some((_, cmd)) => command_in_domain_exec(cmd.as_str()),
    }
}

/// Sway `bindsym MOD+KEY exec voxtype SUBCMD ACTION` (or `bindcode`).
pub fn parse_sway_line(line: &str, source: &str) -> (r: Option<Binding>)
    requires
        sway_line_ok(line@),
    ensures
        match r {
            Some(b) => sway_line_spec(line@) == Some((b.keys@, b.action@)) && b.compositor@
                == "Sway"@ && b.source@ == source@,
            None => sway_line_spec(line@) is None,
        },
{
    let (keys, cmd) = match sway_command_exec(line) {
        Some(x) => x,
        None => return None,
    };
    let action = match action_from_command(cmd.as_str()) {
        Some(a) => a,
        None => return None,
    };
    Some(Binding { compositor: "Sway", keys, action, source: String::from_str(source) })
}

/// What one Sway line contributes when scanning a file.
pub open spec fn sway_scan_line(l: Seq<char>) -> Option<(Seq<char>, Seq<char>)> {
    if sway_line_ok(l) {
        sway_line_spec(l)
    } else {
        None
    }
}

/// The (keys, action) pairs found in a Sway config file, line by line.
pub open spec fn sway_found(text: Seq<char>) -> Seq<(Seq<char>, Seq<char>)> {
    collect_bindings(lines(text), |l: Seq<char>| sway_scan_line(l))
}

/// The bindings declared in the text of a Sway config file, in order.
/// Lines on which the command lookup would leave its domain are skipped.
pub fn sway_bindings(text: &str, source: &str) -> (r: Vec<Binding>)
    ensures
        bindings_view(r@) == sway_found(text@),
        all_from(r@, "Sway"@, source@),
{
    let ls = text_lines(text);
    let mut out: Vec<Binding> = Vec::new();
    let mut k: usize = 0;
    let ghost f = |l: Seq<char>| sway_scan_line(l);
    while k < ls.len()
        invariant
            ls@.len() == lines(text@).len(),
            forall|i: int| 0 <= i < ls@.len() ==> (#[trigger] ls@[i])@ == lines(text@)[i],
            k <= ls@.len(),
            f == (|l: Seq<char>| sway_scan_line(l)),
            bindings_view(out@) == collect_bindings(lines(text@).take(k as int), f),
            all_from(out@, "Sway"@, source@),
        decreases ls@.len() - k,
    {
        let line = ls[k].as_str();
        assert(lines(text@).take(k + 1).drop_last() =~= lines(text@).take(k as int));
        assert(lines(text@).take(k + 1).last() == line@);
        if sway_line_in_domain(line) {
            match parse_sway_line(line, source) {
                Some(b) => {
                    let ghost prev = out@;
                    out.push(b);
                    assert(bindings_view(out@) =~= bindings_view(prev).push(
                        (out@.last().keys@, out@.last().action@),
                    ));
                },
                None => {},
            }
        }
        k = k + 1;
    }
    assert(lines(text@).take(k as int) =~= lines(text@));
    out
}


/// The strings between double quotes in `s`, in order; an unclosed quote
/// runs to the end.
pub open spec fn quoted(s: Seq<char>) -> Seq<Seq<char>>
    decreases s.len(),
{
    match find(s, seq!['"']) {
        None => Seq::empty(),
        Some(i) => {
            proof {
                lemma_find_from(s, seq!['"'], 0);
            }
            let after = s.skip(i + 1);
            match find(after, seq!['"']) {
                None => seq![after],
                Some(j) => {
                    proof {
                        lemma_find_from(after, seq!['"'], 0);
                    }
                    seq![after.take(j)] + quoted(after.skip(j + 1))
                },
            }
        },
    }
}

/// The ranges of the quoted strings of `v[lo..hi]`.
#[verifier::spinoff_prover]
fn quoted_in(v: &Vec<char>, lo: usize, hi: usize) -> (r: Vec<(usize, usize)>)
    requires
        lo <= hi <= v@.len(),
    ensures
        ranges_within(r@, lo as int, hi as int),
        pieces(v@, r@) == quoted(v@.subrange(lo as int, hi as int)),
{
    let q = vec!['"'];
    assert(q@ =~= seq!['"']);
    let mut parts: Vec<(usize, usize)> = Vec::new();
    let mut p = lo;
    assert(pieces(v@, parts@) + quoted(v@.subrange(p as int, hi as int)) =~= quoted(
        v@.subrange(lo as int, hi as int),
    ));
    loop
        invariant_except_break
            ranges_within(parts@, lo as int, p as int),
            pieces(v@, parts@) + quoted(v@.subrange(p as int, hi as int)) == quoted(
                v@.subrange(lo as int, hi as int),
            ),
        invariant
            lo <= p <= hi <= v@.len(),
            q@ == seq!['"'],
        ensures
            ranges_within(parts@, lo as int, hi as int),
            pieces(v@, parts@) == quoted(v@.subrange(lo as int, hi as int)),
        decreases hi - p,
    {
        let ghost sub = v@.subrange(p as int, hi as int);
        let ghost prev = parts@;
        match find_in(v, p, hi, &q) {
            None => {
                assert(pieces(v@, parts@) + Seq::empty() =~= pieces(v@, parts@));
                break;
            },
            Some(i) => {
                proof {
                    lemma_find_from(sub, seq!['"'], 0);
                }
                let s1 = p + i + 1;
                assert(sub.skip(i + 1) =~= v@.subrange(s1 as int, hi as int));
                match find_in(v, s1, hi, &q) {
                    None => {
                        parts.push((s1, hi));
                        assert(ranges_within(parts@, lo as int, hi as int)) by {
                            assert forall|k: int| 0 <= k < parts@.len() implies lo
                                <= #[trigger] parts@[k].0 <= parts@[k].1 <= hi by {
                                if k < prev.len() {
                                    assert(parts@[k] == prev[k]);
                                }
                            }
                        }
                        assert(pieces(v@, parts@) =~= pieces(v@, prev) + seq![
                            v@.subrange(s1 as int, hi as int),
                        ]);
                        break;
                    },
                    Some(j) => {
                        proof {
                            lemma_find_from(v@.subrange(s1 as int, hi as int), seq!['"'], 0);
                        }
                        parts.push((s1, s1 + j));
                        assert(ranges_within(parts@, lo as int, s1 + j + 1)) by {
                            assert forall|k: int| 0 <= k < parts@.len() implies lo
                                <= #[trigger] parts@[k].0 <= parts@[k].1 <= s1 + j + 1 by {
                                if k < prev.len() {
                                    assert(parts@[k] == prev[k]);
                                    assert(lo <= prev[k].0 <= prev[k].1 <= p);
                                } else {
                                    assert(parts@[k] == (s1, (s1 + j) as usize));
                                }
                            }
                        }
                        assert(v@.subrange(s1 as int, hi as int).take(j as int) =~= v@.subrange(
                            s1 as int,
                            s1 + j,
                        ));
                        assert(v@.subrange(s1 as int, hi as int).skip(j + 1) =~= v@.subrange(
                            s1 + j + 1,
                            hi as int,
                        ));
                        assert(pieces(v@, parts@) =~= pieces(v@, prev) + seq![
                            v@.subrange(s1 as int, s1 + j),
                        ]);
                        p = s1 + j + 1;
                        assert(pieces(v@, parts@) + quoted(v@.subrange(p as int, hi as int))
                            =~= pieces(v@, prev) + quoted(sub));
                    },
                }
            },
        }
    }
    parts
}

/// `spawn`
pub open spec fn spawn_chars() -> Seq<char> {
    seq!['s', 'p', 'a', 'w', 'n']
}

/// The keys and action of the binding that a Niri line
/// `KEYS { spawn "voxtype" "SUBCMD" "ACTION"; }` declares.
pub open spec fn niri_line_spec(line: Seq<char>) -> Option<(Seq<char>, Seq<char>)> {
    let t = trim(line);
    if starts_with(t, seq!['/', '/']) {
        None
    } else if !contains(t, voxtype_chars()) || !contains(t, spawn_chars()) {
        None
    } else {
        match find(t, seq!['{']) {
            None => None,
            Some(i) => {
                let keys = trim(t.take(i));
                let rest = t.skip(i + 1);
                if keys.len() == 0 {
                    None
                } else {
                    match find(rest, spawn_chars()) {
                        None => None,
                        Some(si) => {
                            let q = quoted(rest.skip(si + 5));
                            if q.len() == 0 || q[0] != voxtype_chars() {
                                None
                            } else if q.len() < 3 {
                                None
                            } else {
                                let a = q[1] + seq![' '] + q[2];
                                if known_action(a) {
                                    Some((keys, a))
                                } else {
                                    None
                                }
                            }
                        },
                    }
                }
            },
        }
    }
}

/// Niri's KDL `binds { Mod+Key { spawn "voxtype" "record" "ACTION"; } }`.
/// Only single-line bindings are handled, which is the common case.
pub fn parse_niri_line(line: &str, source: &str) -> (r: Option<Binding>)
    ensures
        match r {
            Some(b) => niri_line_spec(line@) == Some((b.keys@, b.action@)) && b.compositor@
                == "Niri"@ && b.source@ == source@,
            None => niri_line_spec(line@) is None,
        },
{
    let v = chars_of(line);
    let n = v.len();
    let (a, b) = trim_range(&v, 0, n);
    assert(v@.subrange(0, n as int) =~= line@);
    let ghost t = trim(line@);
    assert(t == v@.subrange(a as int, b as int));
    let slashes = vec!['/', '/'];
    assert(slashes@ =~= seq!['/', '/']);
    if starts_with_in(&v, a, b, &slashes) {
        return None;
    }
    let vox = vec!['v', 'o', 'x', 't', 'y', 'p', 'e'];
    assert(vox@ =~= voxtype_chars());
    let spawn = vec!['s', 'p', 'a', 'w', 'n'];
    assert(spawn@ =~= spawn_chars());
    if find_in(&v, a, b, &vox).is_none() || find_in(&v, a, b, &spawn).is_none() {
        return None;
    }
    let brace = vec!['{'];
    assert(brace@ =~= seq!['{']);
    let i = match find_in(&v, a, b, &brace) {
        Some(i) => i,
        None => return None,
    };
    proof {
        lemma_find_from(t, seq!['{'], 0);
    }
    let e = a + i;
    assert(t.take(i as int) =~= v@.subrange(a as int, e as int));
    assert(t.skip(i + 1) =~= v@.subrange(e + 1, b as int));
    let (k0, k1) = trim_range(&v, a, e);
    if k0 == k1 {
        return None;
    }
    let si = match find_in(&v, e + 1, b, &spawn) {
        Some(si) => si,
        None => return None,
    };
    proof {
        lemma_find_from(v@.subrange(e + 1, b as int), spawn_chars(), 0);
    }
    let args = e + 1 + si + 5;
    assert(t.skip(i + 1).skip(si + 5) =~= v@.subrange(args as int, b as int));
    let qs = quoted_in(&v, args, b);
    let ghost q = quoted(v@.subrange(args as int, b as int));
    assert(pieces(v@, qs@) == q);
    if qs.len() == 0 {
        return None;
    }
    let (q0a, q0b) = qs[0];
    assert(q[0] == v@.subrange(q0a as int, q0b as int));
    if !range_eq_str_pub(&v, q0a, q0b, "voxtype") {
        proof {
            reveal_strlit("voxtype");
        }
        assert("voxtype"@ =~= voxtype_chars());
        return None;
    }
    proof {
        reveal_strlit("voxtype");
    }
    assert("voxtype"@ =~= voxtype_chars());
    if qs.len() < 3 {
        return None;
    }
    let (q1a, q1b) = qs[1];
    let (q2a, q2b) = qs[2];
    assert(q[1] == v@.subrange(q1a as int, q1b as int));
    assert(q[2] == v@.subrange(q2a as int, q2b as int));
    let mut action = substring(line, q1a, q1b);
    action.append(" ");
    let leaf = substring(line, q2a, q2b);
    action.append(leaf.as_str());
    proof {
        reveal_strlit(" ");
    }
    assert(action@ =~= q[1] + seq![' '] + q[2]);
    if !is_known_action(action.as_str()) {
        return None;
    }
    Some(
        Binding {
            compositor: "Niri",
            keys: substring(line, k0, k1),
            action,
            source: String::from_str(source),
        },
    )
}

/// The (keys, action) pairs found in a Niri config file, line by line.
pub open spec fn niri_found(text: Seq<char>) -> Seq<(Seq<char>, Seq<char>)> {
    collect_bindings(lines(text), |l: Seq<char>| niri_line_spec(l))
}

/// The bindings declared in the text of a Niri config file, in order.
pub fn niri_bindings(text: &str, source: &str) -> (r: Vec<Binding>)
    ensures
        bindings_view(r@) == niri_found(text@),
        all_from(r@, "Niri"@, source@),
{
    let ls = text_lines(text);
    let mut out: Vec<Binding> = Vec::new();
    let mut k: usize = 0;
    let ghost f = |l: Seq<char>| niri_line_spec(l);
    while k < ls.len()
        invariant
            ls@.len() == lines(text@).len(),
            forall|i: int| 0 <= i < ls@.len() ==> (#[trigger] ls@[i])@ == lines(text@)[i],
            k <= ls@.len(),
            f == (|l: Seq<char>| niri_line_spec(l)),
            bindings_view(out@) == collect_bindings(lines(text@).take(k as int), f),
            all_from(out@, "Niri"@, source@),
        decreases ls@.len() - k,
    {
        let line = ls[k].as_str();
        assert(lines(text@).take(k + 1).drop_last() =~= lines(text@).take(k as int));
        assert(lines(text@).take(k + 1).last() == line@);
        match parse_niri_line(line, source) {
            Some(b) => {
                let ghost prev = out@;
                out.push(b);
                assert(bindings_view(out@) =~= bindings_view(prev).push(
                    (out@.last().keys@, out@.last().action@),
                ));
            },
            None => {},
        }
        k = k + 1;
    }
    assert(lines(text@).take(k as int) =~= lines(text@));
    out
}


/// Format hint for a `Suggestion`: picked from the compositor that owns the
/// most existing bindings, falling back to Hyprland.
#[derive(Debug, Clone, Copy, PartialEq, Eq, Structural)]
pub enum Compositor {
    Hyprland,
    Sway,
    Niri,
}

/// The display name of a compositor.
pub open spec fn compositor_name(c: Compositor) -> Seq<char> {
    match c {
        Compositor::Hyprland => "Hyprland"@,
        Compositor::Sway => "Sway"@,
        Compositor::Niri => "Niri"@,
    }
}

impl Compositor {
    /// The compositor's display name, as bindings record it.
    pub fn name(self) -> (r: &'static str)
        ensures
            r@ == compositor_name(self),
    {
        match self {
            Compositor::Hyprland => "Hyprland",
            Compositor::Sway => "Sway",
            Compositor::Niri => "Niri",
        }
    }
}

/// One missing binding the user might want to add.
#[derive(Debug, Clone)]
pub struct Suggestion {
    pub label: String,
    pub purpose: &'static str,
    pub config_lines: Vec<String>,
}

/// The characters of each string.
pub open spec fn strings_view(v: Seq<String>) -> Seq<Seq<char>> {
    Seq::new(v.len(), |i: int| v[i]@)
}

/// The label, purpose and config lines of each suggestion.
pub open spec fn suggestions_view(v: Seq<Suggestion>) -> Seq<(Seq<char>, Seq<char>, Seq<Seq<char>>)> {
    Seq::new(v.len(), |i: int| (v[i].label@, v[i].purpose@, strings_view(v[i].config_lines@)))
}

/// The number of bindings that name compositor `name`.
pub open spec fn count_compositor(bs: Seq<Binding>, name: Seq<char>) -> nat
    decreases bs.len(),
{
    if bs.len() == 0 {
        0
    } else {
        count_compositor(bs.drop_last(), name) + if bs.last().compositor@ == name {
            1nat
        } else {
            0nat
        }
    }
}

/// The compositor that `dominant_compositor` picks: Niri if it has strictly
/// more bindings than each of the others, else Sway if it has strictly more
/// than Hyprland, else Hyprland.
pub open spec fn dominant_spec(bs: Seq<Binding>) -> Compositor {
    let h = count_compositor(bs, "Hyprland"@);
    let s = count_compositor(bs, "Sway"@);
    let n = count_compositor(bs, "Niri"@);
    if n > h && n > s {
        Compositor::Niri
    } else if s > h {
        Compositor::Sway
    } else {
        Compositor::Hyprland
    }
}

proof fn lemma_count_le(bs: Seq<Binding>, name: Seq<char>)
    ensures
        count_compositor(bs, name) <= bs.len(),
    decreases bs.len(),
{
    if bs.len() > 0 {
        lemma_count_le(bs.drop_last(), name);
    }
}

/// Pick the most likely compositor based on the bindings already detected,
/// or default to Hyprland.
pub fn dominant_compositor(detected: &[Binding]) -> (c: Compositor)
    ensures
        c == dominant_spec(detected@),
{
    let mut hypr: usize = 0;
    let mut sway: usize = 0;
    let mut niri: usize = 0;
    let mut i: usize = 0;
    while i < detected.len()
        invariant
            i <= detected@.len(),
            hypr == count_compositor(detected@.take(i as int), "Hyprland"@),
            sway == count_compositor(detected@.take(i as int), "Sway"@),
            niri == count_compositor(detected@.take(i as int), "Niri"@),
        decreases detected@.len() - i,
    {
        proof {
            lemma_count_le(detected@.take(i as int), "Hyprland"@);
            lemma_count_le(detected@.take(i as int), "Sway"@);
            lemma_count_le(detected@.take(i as int), "Niri"@);
        }
        let name = detected[i].compositor;
        proof {
            reveal_strlit("Hyprland");
            reveal_strlit("Sway");
            reveal_strlit("Niri");
            assert("Hyprland"@.len() == 8 && "Sway"@.len() == 4 && "Niri"@.len() == 4);
            assert("Sway"@[0] == 'S' && "Niri"@[0] == 'N');
        }
        assert(detected@.take(i + 1).drop_last() =~= detected@.take(i as int));
        assert(detected@.take(i + 1).last() == detected@[i as int]);
        if str_eq(name, "Hyprland") {
            hypr = hypr + 1;
        } else if str_eq(name, "Sway") {
            sway = sway + 1;
        } else if str_eq(name, "Niri") {
            niri = niri + 1;
        }
        i = i + 1;
    }
    assert(detected@.take(i as int) =~= detected@);
    if niri > hypr && niri > sway {
        Compositor::Niri
    } else if sway > hypr {
        Compositor::Sway
    } else {
        Compositor::Hyprland
    }
}

/// How a suggested binding is laid out.
#[derive(Debug, Clone, Copy, PartialEq, Eq, Structural)]
pub enum BindShape {
    /// Press-only: action fires when the key goes down.
    Single,
    /// Press-only half of a PTT pair (e.g. `record start`).
    PttPress,
    /// Release-only half of a PTT pair (e.g. `record stop`).
    PttRelease,
    /// Both halves of a PTT pair, rendered together.
    PttPair,
    /// Two separate single-press bindings for meeting start + stop.
    MeetingPair,
}

/// Each word of `s` in double quotes, separated by single spaces.
pub open spec fn quote_words_spec(s: Seq<char>) -> Seq<char> {
    join_words(words(s).map_values(|w: Seq<char>| seq!['"'] + w + seq!['"']))
}

/// Each word of `s` in double quotes, separated by single spaces
/// (the argument list of a Niri `spawn`).
pub fn quote_words(s: &str) -> (r: String)
    ensures
        r@ == quote_words_spec(s@),
{
    let v = chars_of(s);
    let ws = words_in(&v, 0, v.len());
    assert(v@.subrange(0, v@.len() as int) =~= v@);
    let ghost q = words(s@).map_values(|w: Seq<char>| seq!['"'] + w + seq!['"']);
    let mut out = String::new();
    let mut i: usize = 0;
    assert(out@ =~= join_words(q.take(0)));
    while i < ws.len()
        invariant
            v@ == s@,
            pieces(v@, ws@) == words(s@),
            ranges_within(ws@, 0, v@.len() as int),
            q == words(s@).map_values(|w: Seq<char>| seq!['"'] + w + seq!['"']),
            i <= ws@.len(),
            out@ == join_words(q.take(i as int)),
        decreases ws@.len() - i,
    {
        let (a, b) = ws[i];
        assert(words(s@)[i as int] == v@.subrange(a as int, b as int));
        assert(q.take(i + 1).drop_last() =~= q.take(i as int));
        assert(q.take(i + 1).last() == q[i as int]);
        if i > 0 {
            out.append(" ");
        }
        out.append("\"");
        let w = substring(s, a, b);
        out.append(w.as_str());
        out.append("\"");
        proof {
            reveal_strlit(" ");
            reveal_strlit("\"");
        }
        i = i + 1;
        assert(out@ =~= join_words(q.take(i as int)));
    }
    assert(q.take(i as int) =~= q);
    out
}

/// The config lines suggested for an action, in the compositor's syntax.
pub open spec fn render_lines_spec(comp: Compositor, action: Seq<char>, shape: BindShape) -> Seq<
    Seq<char>,
> {
    match (comp, shape) {
        (Compositor::Hyprland, BindShape::Single) => seq![
            "bind = SUPER, SPACE, voxtype "@ + action + ", exec, voxtype "@ + action,
        ],
        (Compositor::Hyprland, BindShape::PttPress) => seq![
            "bindd  = , F13, Voxtype PTT (start), exec, voxtype record start"@,
        ],
        (Compositor::Hyprland, BindShape::PttRelease) => seq![
            "bindrd = , F13, Voxtype PTT (stop),  exec, voxtype record stop"@,
        ],
        (Compositor::Hyprland, BindShape::PttPair) => seq![
            "bindd  = , F13, Voxtype PTT (start), exec, voxtype record start"@,
            "bindrd = , F13, Voxtype PTT (stop),  exec, voxtype record stop"@,
        ],
        (Compositor::Hyprland, BindShape::MeetingPair) => seq![
            "bind = SUPER, M,        Meeting start, exec, voxtype meeting start"@,
            "bind = SUPER SHIFT, M,  Meeting stop,  exec, voxtype meeting stop"@,
        ],
        (Compositor::Sway, BindShape::Single) => seq!["bindsym Mod4+space exec voxtype "@ + action],
        (Compositor::Sway, BindShape::PttPress) => seq!["bindsym F13 exec voxtype record start"@],
        (Compositor::Sway, BindShape::PttRelease) => seq![
            "bindsym --release F13 exec voxtype record stop"@,
        ],
        (Compositor::Sway, BindShape::PttPair) => seq![
            "bindsym F13 exec voxtype record start"@,
            "bindsym --release F13 exec voxtype record stop"@,
        ],
        (Compositor::Sway, BindShape::MeetingPair) => seq![
            "bindsym Mod4+m exec voxtype meeting start"@,
            "bindsym Mod4+Shift+m exec voxtype meeting stop"@,
        ],
        (Compositor::Niri, BindShape::Single) => seq![
            "Mod+Space { spawn \"voxtype\" "@ + quote_words_spec(action) + "; }"@,
        ],
        (Compositor::Niri, BindShape::PttPress) => seq![
            "F13 { spawn \"voxtype\" \"record\" \"start\"; }"@,
        ],
        (Compositor::Niri, BindShape::PttRelease) => seq![
            "// Niri does not natively bind on key release; use toggle mode \
             or fall back to a press-only start binding."@,
        ],
        (Compositor::Niri, BindShape::PttPair) => seq![
            "F13 { spawn \"voxtype\" \"record\" \"toggle\"; }"@,
            "// (Niri lacks key-release binds; use toggle in place of PTT.)"@,
        ],
        (Compositor::Niri, BindShape::MeetingPair) => seq![
            "Mod+M { spawn \"voxtype\" \"meeting\" \"start\"; }"@,
            "Mod+Shift+M { spawn \"voxtype\" \"meeting\" \"stop\"; }"@,
        ],
    }
}

fn one_line(a: &str) -> (r: Vec<String>)
    ensures
        strings_view(r@) == seq![a@],
{
    let r = vec![String::from_str(a)];
    assert(strings_view(r@) =~= seq![a@]);
    r
}

fn two_lines(a: &str, b: &str) -> (r: Vec<String>)
    ensures
        strings_view(r@) == seq![a@, b@],
{
    let r = vec![String::from_str(a), String::from_str(b)];
    assert(strings_view(r@) =~= seq![a@, b@]);
    r
}

/// The config lines to suggest for `action`, in the syntax of `comp`.
pub fn render_lines(comp: Compositor, action: &str, shape: BindShape) -> (r: Vec<String>)
    ensures
        strings_view(r@) == render_lines_spec(comp, action@, shape),
{
    match (comp, shape) {
        (Compositor::Hyprland, BindShape::Single) => {
            // `action.replace(' ', " ")` in the format arguments replaces
            // each space by a space, so the action goes in unchanged.
            let mut l = String::from_str("bind = SUPER, SPACE, voxtype ");
            l.append(action);
            l.append(", exec, voxtype ");
            l.append(action);
            let r = vec![l];
            assert(strings_view(r@) =~= render_lines_spec(comp, action@, shape));
            r
        },
        (Compositor::Hyprland, BindShape::PttPress) => one_line(
            "bindd  = , F13, Voxtype PTT (start), exec, voxtype record start",
        ),
        (Compositor::Hyprland, BindShape::PttRelease) => one_line(
            "bindrd = , F13, Voxtype PTT (stop),  exec, voxtype record stop",
        ),
        (Compositor::Hyprland, BindShape::PttPair) => two_lines(
            "bindd  = , F13, Voxtype PTT (start), exec, voxtype record start",
            "bindrd = , F13, Voxtype PTT (stop),  exec, voxtype record stop",
        ),
        (Compositor::Hyprland, BindShape::MeetingPair) => two_lines(
            "bind = SUPER, M,        Meeting start, exec, voxtype meeting start",
            "bind = SUPER SHIFT, M,  Meeting stop,  exec, voxtype meeting stop",
        ),
        (Compositor::Sway, BindShape::Single) => {
            let mut l = String::from_str("bindsym Mod4+space exec voxtype ");
            l.append(action);
            let r = vec![l];
            assert(strings_view(r@) =~= render_lines_spec(comp, action@, shape));
            r
        },
        (Compositor::Sway, BindShape::PttPress) => one_line("bindsym F13 exec voxtype record start"),
        (Compositor::Sway, BindShape::PttRelease) => one_line(
            "bindsym --release F13 exec voxtype record stop",
        ),
        (Compositor::Sway, BindShape::PttPair) => two_lines(
            "bindsym F13 exec voxtype record start",
            "bindsym --release F13 exec voxtype record stop",
        ),
        (Compositor::Sway, BindShape::MeetingPair) => two_lines(
            "bindsym Mod4+m exec voxtype meeting start",
            "bindsym Mod4+Shift+m exec voxtype meeting stop",
        ),
        (Compositor::Niri, BindShape::Single) => {
            let mut l = String::from_str("Mod+Space { spawn \"voxtype\" ");
            let q = quote_words(action);
            l.append(q.as_str());
            l.append("; }");
            let r = vec![l];
            assert(strings_view(r@) =~= render_lines_spec(comp, action@, shape));
            r
        },
        (Compositor::Niri, BindShape::PttPress) => one_line(
            "F13 { spawn \"voxtype\" \"record\" \"start\"; }",
        ),
        (Compositor::Niri, BindShape::PttRelease) => one_line(
            "// Niri does not natively bind on key release; use toggle mode \
             or fall back to a press-only start binding.",
        ),
        (Compositor::Niri, BindShape::PttPair) => two_lines(
            "F13 { spawn \"voxtype\" \"record\" \"toggle\"; }",
            "// (Niri lacks key-release binds; use toggle in place of PTT.)",
        ),
        (Compositor::Niri, BindShape::MeetingPair) => two_lines(
            "Mod+M { spawn \"voxtype\" \"meeting\" \"start\"; }",
            "Mod+Shift+M { spawn \"voxtype\" \"meeting\" \"stop\"; }",
        ),
    }
}


/// Some binding invokes action `a`.
pub open spec fn has_action(bs: Seq<Binding>, a: Seq<char>) -> bool {
    exists|i: int| 0 <= i < bs.len() && (#[trigger] bs[i]).action@ == a
}

/// Whether some binding invokes `action`.
fn has_action_exec(detected: &[Binding], action: &str) -> (b: bool)
    ensures
        b == has_action(detected@, action@),
{
    let mut i: usize = 0;
    while i < detected.len()
        invariant
            i <= detected@.len(),
            forall|j: int| 0 <= j < i ==> (#[trigger] detected@[j]).action@ != action@,
        decreases detected@.len() - i,
    {
        if str_eq(detected[i].action.as_str(), action) {
            return true;
        }
        i = i + 1;
    }
    false
}

/// A suggestion as label, purpose and config lines.
pub type SuggestionView = (Seq<char>, Seq<char>, Seq<Seq<char>>);

/// The suggestions `suggest_missing` makes, in order, given the compositor
/// whose syntax they use and which actions are already bound.
pub open spec fn suggestions_for(
    comp: Compositor,
    has_start: bool,
    has_stop: bool,
    has_toggle: bool,
    has_cancel: bool,
    has_meeting_start: bool,
    has_meeting_stop: bool,
) -> Seq<SuggestionView> {
    let stop: Seq<SuggestionView> = if has_start && !has_stop {
        seq![
            (
                "Stop (release of your PTT key)"@,
                STOP_PURPOSE@,
                render_lines_spec(comp, "record stop"@, BindShape::PttRelease),
            ),
        ]
    } else {
        Seq::empty()
    };
    let start: Seq<SuggestionView> = if has_stop && !has_start {
        seq![
            (
                "Start (press of your PTT key)"@,
                START_PURPOSE@,
                render_lines_spec(comp, "record start"@, BindShape::PttPress),
            ),
        ]
    } else {
        Seq::empty()
    };
    let flows: Seq<SuggestionView> = if !has_start && !has_stop && !has_toggle {
        seq![
            (
                "Push-to-talk (start + stop pair)"@,
                PTT_PURPOSE@,
                render_lines_spec(comp, "record start/stop"@, BindShape::PttPair),
            ),
            (
                "Toggle (single-key alternative)"@,
                TOGGLE_PURPOSE@,
                render_lines_spec(comp, "record toggle"@, BindShape::Single),
            ),
        ]
    } else if !has_toggle && (has_start || has_stop) {
        seq![
            (
                "Toggle (alternative to PTT)"@,
                TOGGLE_ALT_PURPOSE@,
                render_lines_spec(comp, "record toggle"@, BindShape::Single),
            ),
        ]
    } else {
        Seq::empty()
    };
    let cancel: Seq<SuggestionView> = if !has_cancel {
        seq![
            (
                "Cancel (abort in-progress recording)"@,
                CANCEL_PURPOSE@,
                render_lines_spec(comp, "record cancel"@, BindShape::Single),
            ),
        ]
    } else {
        Seq::empty()
    };
    let meeting: Seq<SuggestionView> = if !has_meeting_start && !has_meeting_stop {
        seq![
            (
                "Meeting mode (start + stop)"@,
                MEETING_PURPOSE@,
                render_lines_spec(comp, "meeting start/stop"@, BindShape::MeetingPair),
            ),
        ]
    } else if has_meeting_start && !has_meeting_stop {
        seq![
            (
                "Meeting stop"@,
                MEETING_STOP_PURPOSE@,
                render_lines_spec(comp, "meeting stop"@, BindShape::Single),
            ),
        ]
    } else if has_meeting_stop && !has_meeting_start {
        seq![
            (
                "Meeting start"@,
                MEETING_START_PURPOSE@,
                render_lines_spec(comp, "meeting start"@, BindShape::Single),
            ),
        ]
    } else {
        Seq::empty()
    };
    stop + start + flows + cancel + meeting
}

/// The suggestions for the bindings `bs` already has.
pub open spec fn suggest_missing_spec(bs: Seq<Binding>) -> Seq<SuggestionView> {
    suggestions_for(
        dominant_spec(bs),
        has_action(bs, "record start"@),
        has_action(bs, "record stop"@),
        has_action(bs, "record toggle"@),
        has_action(bs, "record cancel"@),
        has_action(bs, "meeting start"@),
        has_action(bs, "meeting stop"@),
    )
}

pub const STOP_PURPOSE: &'static str = "Without a stop binding, hold-to-record never finishes — \
                      voxtype will run until max_duration_secs hits.";

pub const START_PURPOSE: &'static str = "You have a stop binding but no start — recording can't \
                      begin from your compositor.";

pub const PTT_PURPOSE: &'static str = "Hold the key while you speak; release to transcribe.";

pub const TOGGLE_PURPOSE: &'static str = "Press once to start, again to stop. Better for long \
                      dictations.";

pub const TOGGLE_ALT_PURPOSE: &'static str = "A single-key toggle bound to a different key gives you \
                      a long-dictation flow without competing with the PTT \
                      key.";

pub const CANCEL_PURPOSE: &'static str = "Discards audio without transcribing — useful when you \
                      trip the PTT key by accident or the wrong window has \
                      focus.";

pub const MEETING_PURPOSE: &'static str = "Long-form recording with chunked transcription. Bind \
                      separate keys so meeting capture doesn't collide with \
                      regular dictation.";

pub const MEETING_STOP_PURPOSE: &'static str = "You have a meeting-start binding but no stop. Without \
                      it the meeting only ends when you `voxtype meeting stop` \
                      from the CLI.";

pub const MEETING_START_PURPOSE: &'static str = "You bound meeting stop but not start.";

fn suggestion(label: &str, purpose: &'static str, config_lines: Vec<String>) -> (s: Suggestion)
    ensures
        s.label@ == label@,
        s.purpose@ == purpose@,
        s.config_lines@ == config_lines@,
{
    Suggestion { label: String::from_str(label), purpose, config_lines }
}

/// Look at the actions the user has already bound and suggest config
/// snippets for likely-missing ones (cancel, toggle, meeting start/stop).
pub fn suggest_missing(detected: &[Binding]) -> (r: Vec<Suggestion>)
    ensures
        suggestions_view(r@) == suggest_missing_spec(detected@),
{
    let comp = dominant_compositor(detected);
    let has_start = has_action_exec(detected, "record start");
    let has_stop = has_action_exec(detected, "record stop");
    let has_toggle = has_action_exec(detected, "record toggle");
    let has_cancel = has_action_exec(detected, "record cancel");
    let has_meeting_start = has_action_exec(detected, "meeting start");
    let has_meeting_stop = has_action_exec(detected, "meeting stop");
    let ghost all = suggestions_for(
        comp,
        has_start,
        has_stop,
        has_toggle,
        has_cancel,
        has_meeting_start,
        has_meeting_stop,
    );

    let mut suggestions: Vec<Suggestion> = Vec::new();

    // PTT pair: if one half is bound, suggest the other.
    if has_start && !has_stop {
        suggestions.push(
            suggestion(
                "Stop (release of your PTT key)",
                STOP_PURPOSE,
                render_lines(comp, "record stop", BindShape::PttRelease),
            ),
        );
    }
    if has_stop && !has_start {
        suggestions.push(
            suggestion(
                "Start (press of your PTT key)",
                START_PURPOSE,
                render_lines(comp, "record start", BindShape::PttPress),
            ),
        );
    }
    let ghost n1 = suggestions@.len();
    // No PTT pair at all and no toggle: suggest both flows.
    if !has_start && !has_stop && !has_toggle {
        suggestions.push(
            suggestion(
                "Push-to-talk (start + stop pair)",
                PTT_PURPOSE,
                render_lines(comp, "record start/stop", BindShape::PttPair),
            ),
        );
        suggestions.push(
            suggestion(
                "Toggle (single-key alternative)",
                TOGGLE_PURPOSE,
                render_lines(comp, "record toggle", BindShape::Single),
            ),
        );
    } else if !has_toggle && (has_start || has_stop) {
        suggestions.push(
            suggestion(
                "Toggle (alternative to PTT)",
                TOGGLE_ALT_PURPOSE,
                render_lines(comp, "record toggle", BindShape::Single),
            ),
        );
    }
    if !has_cancel {
        suggestions.push(
            suggestion(
                "Cancel (abort in-progress recording)",
                CANCEL_PURPOSE,
                render_lines(comp, "record cancel", BindShape::Single),
            ),
        );
    }
    if !has_meeting_start && !has_meeting_stop {
        suggestions.push(
            suggestion(
                "Meeting mode (start + stop)",
                MEETING_PURPOSE,
                render_lines(comp, "meeting start/stop", BindShape::MeetingPair),
            ),
        );
    } else if has_meeting_start && !has_meeting_stop {
        suggestions.push(
            suggestion(
                "Meeting stop",
                MEETING_STOP_PURPOSE,
                render_lines(comp, "meeting stop", BindShape::Single),
            ),
        );
    } else if has_meeting_stop && !has_meeting_start {
        suggestions.push(
            suggestion(
                "Meeting start",
                MEETING_START_PURPOSE,
                render_lines(comp, "meeting start", BindShape::Single),
            ),
        );
    }
    assert(suggestions_view(suggestions@) =~= all);
    suggestions
}

/// What a line scanner finds always names an action voxtype knows.
pub open spec fn finds_known_actions(f: spec_fn(Seq<char>) -> Option<(Seq<char>, Seq<char>)>) -> bool {
    forall|l: Seq<char>| #[trigger] f(l) matches Some(x) ==> known_action(x.1)
}

proof fn lemma_collect_known(
    ls: Seq<Seq<char>>,
    f: spec_fn(Seq<char>) -> Option<(Seq<char>, Seq<char>)>,
)
    requires
        finds_known_actions(f),
    ensures
        forall|i: int|
            0 <= i < collect_bindings(ls, f).len() ==> known_action(
                (#[trigger] collect_bindings(ls, f)[i]).1,
            ),
    decreases ls.len(),
{
    if ls.len() > 0 {
        lemma_collect_known(ls.drop_last(), f);
        let p = collect_bindings(ls.drop_last(), f);
        let r = f(ls.last());
        assert(r matches Some(x) ==> known_action(x.1));
        assert forall|i: int| 0 <= i < collect_bindings(ls, f).len() implies known_action(
            (#[trigger] collect_bindings(ls, f)[i]).1,
        ) by {
            if i < p.len() {
                assert(collect_bindings(ls, f)[i] == p[i]);
            }
        }
    }
}

/// Every binding found in a Hyprland, Sway or Niri config names one of the
/// actions voxtype knows.
pub proof fn law_found_actions_known(text: Seq<char>)
    ensures
        forall|i: int|
            0 <= i < hyprland_found(text).len()
                ==> known_action(
                (#[trigger] hyprland_found(text)[i]).1,
            ),
        forall|i: int|
            0 <= i < sway_found(text).len()
                ==> known_action(
                (#[trigger] sway_found(text)[i]).1,
            ),
        forall|i: int|
            0 <= i < niri_found(text).len()
                ==> known_action(
                (#[trigger] niri_found(text)[i]).1,
            ),
{
    let fh = |l: Seq<char>| hyprland_scan_line(l);
    let fs = |l: Seq<char>| sway_scan_line(l);
    let fnr = |l: Seq<char>| niri_line_spec(l);
    assert(finds_known_actions(fh)) by {
        assert forall|l: Seq<char>| (#[trigger] fh(l)) is Some implies known_action(fh(l).unwrap().1) by {
            if hyprland_line_ok(l) {
                let c = hyprland_command(l);
                if let Some((m, k, cmd)) = c {
                    assert(command_action(cmd) matches Some(a) ==> known_action(a));
                }
            }
        }
    }
    assert(finds_known_actions(fs)) by {
        assert forall|l: Seq<char>| (#[trigger] fs(l)) is Some implies known_action(fs(l).unwrap().1) by {
            if sway_line_ok(l) {
                let c = sway_command(l);
                if let Some((k, cmd)) = c {
                    assert(command_action(cmd) matches Some(a) ==> known_action(a));
                }
            }
        }
    }
    lemma_collect_known(lines(text), fh);
    lemma_collect_known(lines(text), fs);
    lemma_collect_known(lines(text), fnr);
}

/// The compositor picked for suggestions owns at least as many of the
/// detected bindings as each of the others.
pub proof fn law_dominant_has_most(bs: Seq<Binding>)
    ensures
        count_compositor(bs, compositor_name(dominant_spec(bs))) >= count_compositor(bs, "Hyprland"@),
        count_compositor(bs, compositor_name(dominant_spec(bs))) >= count_compositor(bs, "Sway"@),
        count_compositor(bs, compositor_name(dominant_spec(bs))) >= count_compositor(bs, "Niri"@),
{
}

proof fn lemma_count_remove(bs: Seq<Binding>, j: int, name: Seq<char>)
    requires
        0 <= j < bs.len(),
    ensures
        count_compositor(bs, name) == count_compositor(bs.remove(j), name) + if bs[j].compositor@
            == name {
            1int
        } else {
            0int
        },
    decreases bs.len(),
{
    if j == bs.len() - 1 {
        assert(bs.remove(j) =~= bs.drop_last());
    } else {
        lemma_count_remove(bs.drop_last(), j, name);
        assert(bs.remove(j) =~= bs.drop_last().remove(j).push(bs.last()));
        assert(bs.remove(j).drop_last() =~= bs.drop_last().remove(j));
    }
}

proof fn lemma_count_reordered(bs1: Seq<Binding>, bs2: Seq<Binding>, name: Seq<char>)
    requires
        bs1.to_multiset() == bs2.to_multiset(),
    ensures
        count_compositor(bs1, name) == count_compositor(bs2, name),
    decreases bs1.len(),
{
    broadcast use vstd::seq_lib::group_to_multiset_ensures;

    if bs1.len() == 0 {
        assert(bs2.to_multiset().len() == 0);
        assert(bs2.len() == 0);
    } else {
        let x = bs1.last();
        assert(bs1.drop_last().push(x) =~= bs1);
        assert(bs1.to_multiset() =~= bs1.drop_last().to_multiset().insert(x));
        assert(bs2.to_multiset().count(x) > 0);
        assert(bs2.contains(x));
        let j = choose|j: int| 0 <= j < bs2.len() && bs2[j] == x;
        assert(bs2.remove(j).to_multiset() =~= bs2.to_multiset().remove(x));
        assert(bs1.drop_last().to_multiset() =~= bs2.remove(j).to_multiset());
        lemma_count_reordered(bs1.drop_last(), bs2.remove(j), name);
        lemma_count_remove(bs2, j, name);
    }
}

/// The compositor picked for suggestions depends only on which bindings
/// were detected, not on the order in which they were found.
pub proof fn law_dominant_ignores_order(bs1: Seq<Binding>, bs2: Seq<Binding>)
    requires
        bs1.to_multiset() == bs2.to_multiset(),
    ensures
        dominant_spec(bs1) == dominant_spec(bs2),
{
    lemma_count_reordered(bs1, bs2, "Hyprland"@);
    lemma_count_reordered(bs1, bs2, "Sway"@);
    lemma_count_reordered(bs1, bs2, "Niri"@);
}

/// Nothing is suggested exactly when start and stop are bound together or
/// not at all, and toggle, cancel and both meeting actions are bound.
pub proof fn law_nothing_missing(bs: Seq<Binding>)
    ensures
        suggest_missing_spec(bs).len() == 0 <==> (has_action(bs, "record start"@) == has_action(
            bs,
            "record stop"@,
        ) && has_action(bs, "record toggle"@) && has_action(bs, "record cancel"@) && has_action(
            bs,
            "meeting start"@,
        ) && has_action(bs, "meeting stop"@)),
{
}

} // verus!
