//! Items shared by the settings sections.

use vstd::prelude::*;
use vstd::arithmetic::div_mod::{lemma_fundamental_div_mod, lemma_fundamental_div_mod_converse};
use vstd::string::StringExecFns;

use crate::text::{i64_to_string, index_from, signed_decimal, str_eq};
use crate::tui::config_editor::EditorError;

verus! {

/// Whether a feedback message reports success or failure.
#[derive(Debug, Clone, Copy, PartialEq, Eq, Structural)]
pub enum FeedbackLevel {
    Success,
    Failure,
}

/// A feedback message by its level and characters.
pub open spec fn feedback_view(f: Option<(FeedbackLevel, String)>) -> Option<(FeedbackLevel, Seq<char>)> {
    match f {
        Some((l, m)) => Some((l, m@)),
        None => None,
    }
}

/// A key press, as the settings sections read it.
#[derive(Debug, Clone, Copy, PartialEq, Eq, Structural)]
pub enum Key {
    Up,
    Down,
    Left,
    Right,
    Enter,
    Char(char),
    Other,
}

/// What a key press asks of the application besides the change it makes to
/// the section's state: to save the section to the config file, or to reload
/// it from there.
#[derive(Debug, Clone, Copy, PartialEq, Eq, Structural)]
pub enum KeyRequest {
    Nothing,
    Save,
    Reset,
}

/// Moves up the form (`↑` or `k`).
pub open spec fn is_up(k: Key) -> bool {
    k == Key::Up || k == Key::Char('k')
}

/// Moves down the form (`↓` or `j`).
pub open spec fn is_down(k: Key) -> bool {
    k == Key::Down || k == Key::Char('j')
}

/// Steps the value back (`←` or `h`).
pub open spec fn is_left(k: Key) -> bool {
    k == Key::Left || k == Key::Char('h')
}

/// Steps the value forward (`→`, `l` or space).
pub open spec fn is_right(k: Key) -> bool {
    k == Key::Right || k == Key::Char('l') || k == Key::Char(' ')
}

/// The request a key makes of the application: `s` saves, `r` reverts.
pub open spec fn key_request(k: Key) -> KeyRequest {
    if k == Key::Char('s') {
        KeyRequest::Save
    } else if k == Key::Char('r') {
        KeyRequest::Reset
    } else {
        KeyRequest::Nothing
    }
}

/// The request a key makes of the application.
pub fn request_of(k: Key) -> (r: KeyRequest)
    ensures
        r == key_request(k),
{
    match k {
        Key::Char('s') => KeyRequest::Save,
        Key::Char('r') => KeyRequest::Reset,
        _ => KeyRequest::Nothing,
    }
}

/// `s.rem_euclid(len)`.
pub fn wrap(s: i64, len: usize) -> (r: usize)
    requires
        0 < len <= i32::MAX,
        i64::MIN < s,
    ensures
        r as int == (s as int) % (len as int),
        r < len,
{
    if s >= 0 {
        ((s as u64) % (len as u64)) as usize
    } else {
        let a: u64 = (0i64 - s) as u64;
        let m: u64 = a % (len as u64);
        proof {
            lemma_fundamental_div_mod(a as int, len as int);
            let q = a as int / len as int;
            assert(a == len * q + m);
            if m == 0 {
                assert(s == (-q) * len + 0) by (nonlinear_arith)
                    requires
                        a == len * q + m,
                        m == 0,
                        s == -a,
                ;
                lemma_fundamental_div_mod_converse(s as int, len as int, -q, 0);
            } else {
                assert(s == (-q - 1) * len + (len - m)) by (nonlinear_arith)
                    requires
                        a == len * q + m,
                        s == -a,
                ;
                lemma_fundamental_div_mod_converse(s as int, len as int, -q - 1, len - m);
            }
        }
        if m == 0 {
            0
        } else {
            len - (m as usize)
        }
    }
}

/// `(cur + delta).rem_euclid(len)`, computed without overflow.
pub fn cycle_index(cur: usize, delta: i32, len: usize) -> (r: usize)
    requires
        0 < len,
        cur <= i32::MAX,
        len <= i32::MAX,
    ensures
        r as int == (cur + delta) % (len as int),
        r < len,
{
    wrap(cur as i64 + delta as i64, len)
}

/// The characters of each choice.
pub open spec fn strs_view(v: Seq<&'static str>) -> Seq<Seq<char>> {
    Seq::new(v.len(), |i: int| v[i]@)
}

/// The position of `cur` among `choices`.
pub fn position_of(choices: &Vec<&'static str>, cur: &str) -> (r: Option<usize>)
    ensures
        match r {
            Some(i) => index_from(strs_view(choices@), cur@, 0) == Some(i as int),
            None => index_from(strs_view(choices@), cur@, 0) is None,
        },
{
    let ghost cs = strs_view(choices@);
    let mut i: usize = 0;
    while i < choices.len()
        invariant
            cs == strs_view(choices@),
            i <= choices@.len(),
            index_from(cs, cur@, 0) == index_from(cs, cur@, i as int),
        decreases choices@.len() - i,
    {
        if str_eq(choices[i], cur) {
            return Some(i);
        }
        i = i + 1;
    }
    None
}

/// The position of `cur` among `choices`, or `dflt` when it is not one.
pub open spec fn index_or(choices: Seq<Seq<char>>, cur: Seq<char>, dflt: int) -> int {
    match index_from(choices, cur, 0) {
        Some(i) => i,
        None => dflt,
    }
}

/// The choice `delta` steps from `cur` (from position `dflt` when `cur` is
/// not a choice), wrapping around.
pub open spec fn step_choice(choices: Seq<Seq<char>>, cur: Seq<char>, delta: int, dflt: int) -> Seq<char> {
    choices[(index_or(choices, cur, dflt) + delta) % (choices.len() as int)]
}

/// The position found by `index_from` is that of the choice.
pub proof fn lemma_index_from(ws: Seq<Seq<char>>, x: Seq<char>, i: int)
    ensures
        index_from(ws, x, i) matches Some(k) ==> i <= k < ws.len() && ws[k] == x,
    decreases ws.len() - i,
{
    if 0 <= i < ws.len() && ws[i] != x {
        lemma_index_from(ws, x, i + 1);
    }
}

/// The choice `delta` steps from `cur`, starting from position 0 when `cur`
/// is not a choice.
pub fn step_choice_from_first(choices: &Vec<&'static str>, cur: &str, delta: i32) -> (r: &'static str)
    requires
        0 < choices@.len() <= i32::MAX,
        index_or(strs_view(choices@), cur@, 0) + delta <= i32::MAX,
    ensures
        r@ == step_choice(strs_view(choices@), cur@, delta as int, 0),
{
    proof {
        lemma_index_from(strs_view(choices@), cur@, 0);
    }
    let idx = match position_of(choices, cur) {
        Some(i) => i,
        None => 0,
    };
    let n = cycle_index(idx, delta, choices.len());
    choices[n]
}

/// `"yes"` or `"no"`.
pub fn yesno(b: bool) -> (r: String)
    ensures
        r@ == (if b {
            "yes"@
        } else {
            "no"@
        }),
{
    String::from_str(if b { "yes" } else { "no" })
}

/// An optional count as a form shows it: the number, or `auto` when unset.
pub open spec fn auto_or_number_spec(o: Option<i64>) -> Seq<char> {
    match o {
        Some(n) => signed_decimal(n as int),
        None => "auto"@,
    }
}

/// An optional count as a form shows it.
pub fn auto_or_number(o: Option<i64>) -> (r: String)
    ensures
        r@ == auto_or_number_spec(o),
{
    match o {
        Some(n) => i64_to_string(n),
        None => String::from_str("auto"),
    }
}

/// `prefix` followed by `message`.
pub fn prefixed(prefix: &str, message: &str) -> (r: String)
    ensures
        r@ == prefix@ + message@,
{
    let mut s = String::from_str(prefix);
    s.append(message);
    s
}

/// The feedback after an attempt to write the config file: success with its
/// path, or failure with the error.
pub open spec fn save_feedback(outcome: Result<Seq<char>, Seq<char>>) -> (FeedbackLevel, Seq<char>) {
    match outcome {
        Ok(path) => (FeedbackLevel::Success, "Saved to "@ + path),
        Err(msg) => (FeedbackLevel::Failure, "save: "@ + msg),
    }
}

/// An outcome of writing the config file, by its path or error message.
pub open spec fn outcome_view(outcome: Result<String, EditorError>) -> Result<Seq<char>, Seq<char>> {
    match outcome {
        Ok(p) => Ok(p@),
        Err(e) => Err(e.message@),
    }
}

/// The feedback after an attempt to write the config file.
pub fn save_feedback_of(outcome: &Result<String, EditorError>) -> (r: (FeedbackLevel, String))
    ensures
        (r.0, r.1@) == save_feedback(outcome_view(*outcome)),
{
    match outcome {
        Ok(path) => (FeedbackLevel::Success, prefixed("Saved to ", path.as_str())),
        Err(e) => (FeedbackLevel::Failure, prefixed("save: ", e.message.as_str())),
    }
}

} // verus!
