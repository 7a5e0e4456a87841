//! Post-processing of transcribed text.
//!
//! The transcript is piped through a user command (run by the application);
//! this module holds what decides the outcome: the configuration, how the
//! command's output is cleaned, when the original text is used instead, and
//! the parser for the action headers that a command may prepend.

use vstd::prelude::*;
use vstd::string::StrSliceExecFns;
use vstd::string::StringExecFns;

use crate::text::{
    all_digits, contains, digit_char, digit_val, digits_value, is_digit, occurs_at, trim, trim_range,
    chars_of, decimal, find, i64_to_string, signed_decimal, u64_to_string, find_in, lemma_find_from, parse_u32_in, parse_u32_spec, starts_with,
    starts_with_in, substring,
};

verus! {

/// Largest number of backspaces that the headers of one output can request.
pub const MAX_BACKSPACES: u32 = 4096;

/// Configuration of the post-processing command.
pub struct PostProcessConfig {
    pub command: String,
    pub timeout_ms: u64,
    pub trim: bool,
    pub fallback_on_empty: bool,
    pub enable_control_codes: bool,
}

/// Parsed action headers from post-process output.
#[derive(Debug, Clone, Copy, PartialEq, Eq, Structural)]
pub struct OutputActions {
    pub backspaces: u32,
    pub enter: bool,
}

/// The actions of an output without headers.
pub open spec fn no_actions() -> OutputActions {
    OutputActions { backspaces: 0, enter: false }
}

impl Default for OutputActions {
    fn default() -> (r: Self)
        ensures
            r == no_actions(),
    {
        OutputActions { backspaces: 0, enter: false }
    }
}

/// Result of post-processing with optional actions.
#[derive(Debug, Clone)]
pub struct ProcessedOutput {
    pub text: String,
    pub actions: OutputActions,
}

/// Runs an external command on transcribed text.
pub struct PostProcessor {
    command: String,
    timeout_ms: u64,
    trim: bool,
    fallback_on_empty: bool,
    actions_enabled: bool,
}

/// The settings a `PostProcessor` holds.
pub struct PostProcessorView {
    pub command: Seq<char>,
    pub timeout_ms: u64,
    pub trim: bool,
    pub fallback_on_empty: bool,
    pub actions_enabled: bool,
}

impl View for PostProcessor {
    type V = PostProcessorView;

    closed spec fn view(&self) -> PostProcessorView {
        PostProcessorView {
            command: self.command@,
            timeout_ms: self.timeout_ms,
            trim: self.trim,
            fallback_on_empty: self.fallback_on_empty,
            actions_enabled: self.actions_enabled,
        }
    }
}

/// Errors that can occur during post-processing.
#[derive(Debug)]
pub enum PostProcessError {
    /// Failed to spawn the command process
    SpawnFailed(String),
    /// Failed to write text to stdin
    WriteFailed(String),
    /// Command timed out
    Timeout(u64),
    /// Failed to wait for command completion
    WaitFailed(String),
    /// Command exited with non-zero status
    NonZeroExit { code: Option<i32>, stderr: String },
    /// Command output was not valid UTF-8
    InvalidUtf8(String),
}

/// `{:?}` of an exit code.
pub open spec fn code_debug(code: Option<i32>) -> Seq<char> {
    match code {
        Some(c) => "Some("@ + signed_decimal(c as int) + ")"@,
        None => "None"@,
    }
}

/// The message that describes an error.
pub open spec fn error_message(e: PostProcessError) -> Seq<char> {
    match e {
        PostProcessError::SpawnFailed(m) => "failed to spawn command: "@ + m@,
        PostProcessError::WriteFailed(m) => "failed to write to stdin: "@ + m@,
        PostProcessError::Timeout(secs) => "command timed out after "@ + decimal(secs as nat)
            + "s"@,
        PostProcessError::WaitFailed(m) => "failed to wait for command: "@ + m@,
        PostProcessError::NonZeroExit { code, stderr } => if stderr@.len() == 0 {
            "command exited with code "@ + code_debug(code)
        } else {
            "command exited with code "@ + code_debug(code) + ": "@ + stderr@
        },
        PostProcessError::InvalidUtf8(m) => "output is not valid UTF-8: "@ + m@,
    }
}

impl PostProcessError {
    /// The message that describes the error (its `Display`).
    pub fn message(&self) -> (r: String)
        ensures
            r@ == error_message(*self),
    {
        match self {
            PostProcessError::SpawnFailed(e) => {
                let mut s = String::from_str("failed to spawn command: ");
                s.append(e.as_str());
                s
            },
            PostProcessError::WriteFailed(e) => {
                let mut s = String::from_str("failed to write to stdin: ");
                s.append(e.as_str());
                s
            },
            PostProcessError::Timeout(secs) => {
                let mut s = String::from_str("command timed out after ");
                let n = u64_to_string(*secs);
                s.append(n.as_str());
                s.append("s");
                s
            },
            PostProcessError::WaitFailed(e) => {
                let mut s = String::from_str("failed to wait for command: ");
                s.append(e.as_str());
                s
            },
            PostProcessError::NonZeroExit { code, stderr } => {
                let mut s = String::from_str("command exited with code ");
                match code {
                    Some(c) => {
                        s.append("Some(");
                        let n = i64_to_string(*c as i64);
                        s.append(n.as_str());
                        s.append(")");
                    },
                    None => s.append("None"),
                }
                if !stderr.as_str().is_empty() {
                    s.append(": ");
                    s.append(stderr.as_str());
                }
                s
            },
            PostProcessError::InvalidUtf8(e) => {
                let mut s = String::from_str("output is not valid UTF-8: ");
                s.append(e.as_str());
                s
            },
        }
    }
}

/// `<<<VOXTYPE:BACKSPACE=`
pub open spec fn backspace_open() -> Seq<char> {
    seq![
        '<', '<', '<', 'V', 'O', 'X', 'T', 'Y', 'P', 'E', ':', 'B', 'A', 'C', 'K', 'S', 'P', 'A',
        'C', 'E', '=',
    ]
}

/// `>>>`
pub open spec fn header_close() -> Seq<char> {
    seq!['>', '>', '>']
}

/// `<<<VOXTYPE:ENTER>>>`
pub open spec fn enter_header() -> Seq<char> {
    seq![
        '<', '<', '<', 'V', 'O', 'X', 'T', 'Y', 'P', 'E', ':', 'E', 'N', 'T', 'E', 'R', '>', '>',
        '>',
    ]
}

/// A well-formed backspace header at the start of `s`: its count and its
/// length in characters.
pub open spec fn backspace_header(s: Seq<char>) -> Option<(u32, int)> {
    if starts_with(s, backspace_open()) {
        let rest = s.skip(21);
        match find(rest, header_close()) {
            Some(e) => match parse_u32_spec(rest.take(e)) {
                Some(n) => Some((n, 21 + e + 3)),
                None => None,
            },
            None => None,
        }
    } else {
        None
    }
}

/// The backspace count after adding `n`: saturating, then capped.
pub open spec fn add_backspaces(b: u32, n: u32) -> u32 {
    if b + n > MAX_BACKSPACES {
        MAX_BACKSPACES
    } else {
        (b + n) as u32
    }
}

/// A backspace header's length lies within the text.
pub proof fn lemma_backspace_header_len(s: Seq<char>)
    ensures
        backspace_header(s) matches Some((n, len)) ==> 24 <= len <= s.len(),
{
    if starts_with(s, backspace_open()) {
        let rest = s.skip(21);
        lemma_find_from(rest, header_close(), 0);
    }
}

/// Strips the leading action headers from `s`, accumulating into `a`; gives
/// the remaining text and the actions.
pub open spec fn parse_headers(s: Seq<char>, a: OutputActions) -> (Seq<char>, OutputActions)
    decreases s.len(),
{
    match backspace_header(s) {
        Some((n, len)) => {
            proof {
                lemma_backspace_header_len(s);
            }
            parse_headers(
                s.skip(len),
                OutputActions { backspaces: add_backspaces(a.backspaces, n), enter: a.enter },
            )
        },
        None => if starts_with(s, enter_header()) {
            parse_headers(s.skip(19), OutputActions { backspaces: a.backspaces, enter: true })
        } else {
            (s, a)
        },
    }
}

/// What `PostProcessor::parse_actions` gives for `text`.
pub open spec fn parse_actions_spec(text: Seq<char>, enabled: bool) -> (Seq<char>, OutputActions) {
    if enabled {
        parse_headers(text, no_actions())
    } else {
        (text, no_actions())
    }
}

/// `s` begins with a header that `parse_actions` would strip.
pub open spec fn has_header(s: Seq<char>) -> bool {
    backspace_header(s) is Some || starts_with(s, enter_header())
}

fn backspace_open_chars() -> (v: Vec<char>)
    ensures
        v@ == backspace_open(),
{
    let v = vec![
        '<', '<', '<', 'V', 'O', 'X', 'T', 'Y', 'P', 'E', ':', 'B', 'A', 'C', 'K', 'S', 'P', 'A',
        'C', 'E', '=',
    ];
    assert(v@ =~= backspace_open());
    v
}

fn header_close_chars() -> (v: Vec<char>)
    ensures
        v@ == header_close(),
{
    let v = vec!['>', '>', '>'];
    assert(v@ =~= header_close());
    v
}

fn enter_header_chars() -> (v: Vec<char>)
    ensures
        v@ == enter_header(),
{
    let v = vec![
        '<', '<', '<', 'V', 'O', 'X', 'T', 'Y', 'P', 'E', ':', 'E', 'N', 'T', 'E', 'R', '>', '>',
        '>',
    ];
    assert(v@ =~= enter_header());
    v
}

/// `str::trim_end_matches('\n')`: the sequence without trailing newlines.
pub open spec fn trim_end_newlines(s: Seq<char>) -> Seq<char>
    decreases s.len(),
{
    if s.len() > 0 && s.last() == '\n' {
        trim_end_newlines(s.drop_last())
    } else {
        s
    }
}

/// What `PostProcessor::clean_output` gives for raw command output.
pub open spec fn clean_output_spec(trim_output: bool, raw: Seq<char>) -> Seq<char> {
    if trim_output {
        trim(raw)
    } else {
        trim_end_newlines(raw)
    }
}

/// What `PostProcessor::resolve_output` gives: the processed text and its
/// actions, for the command's outcome.
pub open spec fn resolve_spec(
    p: PostProcessorView,
    text: Seq<char>,
    outcome: Result<Seq<char>, ()>,
) -> (Seq<char>, OutputActions) {
    match outcome {
        Ok(processed) => if processed.len() == 0 && p.fallback_on_empty {
            parse_actions_spec(text, p.actions_enabled)
        } else if processed.len() == 0 {
            (Seq::empty(), no_actions())
        } else {
            parse_actions_spec(processed, p.actions_enabled)
        },
        Err(_) => (text, no_actions()),
    }
}

/// The outcome of a run, with the processed text by its characters.
pub open spec fn outcome_view(outcome: Result<String, PostProcessError>) -> Result<Seq<char>, ()> {
    match outcome {
        Ok(s) => Ok(s@),
        Err(_) => Err(()),
    }
}

impl PostProcessor {
    /// Create a new post-processor from configuration.
    pub fn new(config: &PostProcessConfig) -> (p: Self)
        ensures
            p@.command == config.command@,
            p@.timeout_ms == config.timeout_ms,
            p@.trim == config.trim,
            p@.fallback_on_empty == config.fallback_on_empty,
            p@.actions_enabled == config.enable_control_codes,
    {
        PostProcessor {
            command: config.command.clone(),
            timeout_ms: config.timeout_ms,
            trim: config.trim,
            fallback_on_empty: config.fallback_on_empty,
            actions_enabled: config.enable_control_codes,
        }
    }

    /// The shell command run on each transcript.
    pub fn command(&self) -> (r: &String)
        ensures
            r@ == self@.command,
    {
        &self.command
    }

    /// How long the command may run, in milliseconds.
    pub fn timeout_ms(&self) -> (r: u64)
        ensures
            r == self@.timeout_ms,
    {
        self.timeout_ms
    }

    /// Whether the command's output is trimmed of surrounding whitespace.
    pub fn trim_output(&self) -> (r: bool)
        ensures
            r == self@.trim,
    {
        self.trim
    }

    /// Whether an empty output falls back to the original text.
    pub fn fallback_on_empty(&self) -> (r: bool)
        ensures
            r == self@.fallback_on_empty,
    {
        self.fallback_on_empty
    }

    /// Whether action headers are honoured.
    pub fn actions_enabled(&self) -> (r: bool)
        ensures
            r == self@.actions_enabled,
    {
        self.actions_enabled
    }

    /// The error for a run that exceeded the timeout: its length in whole
    /// seconds.
    pub fn timeout_error(&self) -> (e: PostProcessError)
        ensures
            e == PostProcessError::Timeout(self@.timeout_ms / 1000),
    {
        PostProcessError::Timeout(self.timeout_ms / 1000)
    }

    /// Cleans the command's standard output: trimmed of surrounding
    /// whitespace when `trim` is set, else only of trailing newlines (an
    /// artifact of shell output), other whitespace preserved.
    pub fn clean_output(&self, raw: &str) -> (r: String)
        ensures
            r@ == clean_output_spec(self@.trim, raw@),
    {
        let v = chars_of(raw);
        let n = v.len();
        if self.trim {
            let (a, b) = trim_range(&v, 0, n);
            assert(v@.subrange(0, n as int) =~= raw@);
            return substring(raw, a, b);
        }
        let mut j = n;
        assert(v@.subrange(0, n as int) =~= raw@);
        while j > 0 && v[j - 1] == '\n'
            invariant
                v@ == raw@,
                n == v@.len(),
                j <= n,
                trim_end_newlines(raw@) == trim_end_newlines(v@.subrange(0, j as int)),
            decreases j,
        {
            assert(v@.subrange(0, j as int).drop_last() =~= v@.subrange(0, j - 1));
            j = j - 1;
        }
        assert(v@.subrange(0, n as int) =~= raw@);
        substring(raw, 0, j)
    }

    /// Turns the finished command's exit status and output into the
    /// processed text or an error: a failed exit gives `NonZeroExit` with the
    /// trimmed standard error, output that was not UTF-8 gives
    /// `InvalidUtf8`, anything else the cleaned output.
    pub fn interpret(
        &self,
        success: bool,
        code: Option<i32>,
        stderr: &str,
        stdout: Result<String, String>,
    ) -> (r: Result<String, PostProcessError>)
        ensures
            !success ==> (r matches Err(PostProcessError::NonZeroExit { code: c, stderr: e }) && c
                == code && e@ == trim(stderr@)),
            success ==> match stdout {
                Err(msg) => r matches Err(PostProcessError::InvalidUtf8(m)) && m@ == msg@,
                Ok(out) => r matches Ok(t) && t@ == clean_output_spec(self@.trim, out@),
            },
    {
        if !success {
            let v = chars_of(stderr);
            let (a, b) = trim_range(&v, 0, v.len());
            assert(v@.subrange(0, v@.len() as int) =~= stderr@);
            return Err(PostProcessError::NonZeroExit { code, stderr: substring(stderr, a, b) });
        }
        match stdout {
            Err(msg) => Err(PostProcessError::InvalidUtf8(msg)),
            Ok(out) => Ok(self.clean_output(out.as_str())),
        }
    }

    /// Decides what the transcript becomes once the command has run: on
    /// any failure the original text is used; an empty output gives the
    /// original text when `fallback_on_empty` is set and an empty text
    /// otherwise; any other output is parsed for action headers.
    pub fn resolve_output(&self, text: &str, outcome: Result<String, PostProcessError>) -> (out:
        ProcessedOutput)
        ensures
            (out.text@, out.actions) == resolve_spec(self@, text@, outcome_view(outcome)),
    {
        match outcome {
            Ok(processed) => {
                if processed.as_str().is_empty() && self.fallback_on_empty {
                    Self::parse_actions(text, self.actions_enabled)
                } else if processed.as_str().is_empty() {
                    ProcessedOutput { text: String::new(), actions: OutputActions::default() }
                } else {
                    Self::parse_actions(processed.as_str(), self.actions_enabled)
                }
            },
            Err(_) => ProcessedOutput {
                text: String::from_str(text),
                actions: OutputActions::default(),
            },
        }
    }

    /// Parse action headers from the beginning of text.
    ///
    /// Supported leading headers:
    /// - `<<<VOXTYPE:BACKSPACE=N>>>` - delete N characters
    /// - `<<<VOXTYPE:ENTER>>>` - press Enter after text
    ///
    /// Multiple headers are allowed. Malformed headers are treated as literal text.
    pub fn parse_actions(text: &str, actions_enabled: bool) -> (out: ProcessedOutput)
        ensures
            (out.text@, out.actions) == parse_actions_spec(text@, actions_enabled),
    {
        if !actions_enabled {
            return ProcessedOutput { text: String::from_str(text), actions: OutputActions::default() };
        }
        let v = chars_of(text);
        let n = v.len();
        let bs = backspace_open_chars();
        let close = header_close_chars();
        let enter = enter_header_chars();
        let mut k: usize = 0;
        let mut actions = OutputActions::default();
        assert(text@.skip(0) =~= text@);
        loop
            invariant
                v@ == text@,
                n == v@.len(),
                k <= n,
                bs@ == backspace_open(),
                close@ == header_close(),
                enter@ == enter_header(),
                parse_headers(text@, no_actions()) == parse_headers(text@.skip(k as int), actions),
            ensures
                k <= n,
                parse_headers(text@, no_actions()) == (text@.skip(k as int), actions),
            decreases n - k,
        {
            let ghost s = text@.skip(k as int);
            assert(s =~= v@.subrange(k as int, n as int));
            if starts_with_in(&v, k, n, &bs) {
                assert(s.skip(21) =~= v@.subrange(k + 21, n as int));
                match find_in(&v, k + 21, n, &close) {
                    Some(e) => {
                        proof {
                            lemma_find_from(s.skip(21), header_close(), 0);
                        }
                        assert(s.skip(21).take(e as int) =~= v@.subrange(k + 21, k + 21 + e));
                        match parse_u32_in(&v, k + 21, k + 21 + e) {
                            Some(count) => {
                                let total = actions.backspaces.saturating_add(count);
                                let capped = if total > MAX_BACKSPACES {
                                    MAX_BACKSPACES
                                } else {
                                    total
                                };
                                actions = OutputActions { backspaces: capped, enter: actions.enter };
                                assert(s.skip(21 + e + 3) =~= text@.skip(k + 21 + e + 3));
                                k = k + 21 + e + 3;
                                continue;
                            },
                            None => {},
                        }
                    },
                    None => {},
                }
            }
            if starts_with_in(&v, k, n, &enter) {
                actions = OutputActions { backspaces: actions.backspaces, enter: true };
                assert(s.skip(19) =~= text@.skip(k + 19));
                k = k + 19;
                continue;
            }
            assert(backspace_header(s) is None);
            break;
        }
        let rest = substring(text, k, n);
        assert(rest@ =~= text@.skip(k as int));
        ProcessedOutput { text: rest, actions }
    }
}

/// The actions gathered while stripping headers, and what is left.
proof fn lemma_parse_headers(s: Seq<char>, a: OutputActions)
    requires
        a.backspaces <= MAX_BACKSPACES,
    ensures
        !has_header(parse_headers(s, a).0),
        parse_headers(s, a).0.len() <= s.len(),
        parse_headers(s, a).0 == s.skip(s.len() - parse_headers(s, a).0.len()),
        parse_headers(s, a).1.backspaces <= MAX_BACKSPACES,
    decreases s.len(),
{
    lemma_backspace_header_len(s);
    match backspace_header(s) {
        Some((n, len)) => {
            let a2 = OutputActions { backspaces: add_backspaces(a.backspaces, n), enter: a.enter };
            lemma_parse_headers(s.skip(len), a2);
            let r = parse_headers(s.skip(len), a2).0;
            assert(s.skip(len).skip(s.skip(len).len() - r.len()) =~= s.skip(s.len() - r.len()));
        },
        None => if starts_with(s, enter_header()) {
            let a2 = OutputActions { backspaces: a.backspaces, enter: true };
            lemma_parse_headers(s.skip(19), a2);
            let r = parse_headers(s.skip(19), a2).0;
            assert(s.skip(19).skip(s.skip(19).len() - r.len()) =~= s.skip(s.len() - r.len()));
        } else {
            assert(s.skip(0) =~= s);
        },
    }
}

/// Parsing the headers of a text that has none changes nothing: a text
/// without a leading well-formed header comes back whole, with no actions.
pub proof fn law_plain_text_unchanged(text: Seq<char>, enabled: bool)
    requires
        !has_header(text),
    ensures
        parse_actions_spec(text, enabled) == (text, no_actions()),
{
}

/// The text that comes back is a suffix of the text given (headers are only
/// ever removed from the front), and the backspace count never exceeds
/// `MAX_BACKSPACES`.
pub proof fn law_result_is_suffix(text: Seq<char>, enabled: bool)
    ensures
        parse_actions_spec(text, enabled).0.len() <= text.len(),
        parse_actions_spec(text, enabled).0 == text.skip(
            text.len() - parse_actions_spec(text, enabled).0.len(),
        ),
        parse_actions_spec(text, enabled).1.backspaces <= MAX_BACKSPACES,
{
    if enabled {
        lemma_parse_headers(text, no_actions());
    } else {
        assert(text.skip(0) =~= text);
    }
}

/// Parsing is idempotent: the text left after the headers have been
/// stripped has no header, so parsing it again gives it back unchanged and
/// requests no action.
pub proof fn law_parse_actions_idempotent(text: Seq<char>, enabled: bool)
    ensures
        parse_actions_spec(parse_actions_spec(text, enabled).0, enabled) == (
            parse_actions_spec(text, enabled).0,
            no_actions(),
        ),
{
    if enabled {
        lemma_parse_headers(text, no_actions());
    }
}

/// A command that fails leaves the transcript as it was, with no action.
pub proof fn law_failure_keeps_original(p: PostProcessorView, text: Seq<char>)
    ensures
        resolve_spec(p, text, Err(())) == (text, no_actions()),
{
}

proof fn lemma_enter_kept(s: Seq<char>, a: OutputActions)
    requires
        a.enter,
    ensures
        parse_headers(s, a).1.enter,
    decreases s.len(),
{
    lemma_backspace_header_len(s);
    match backspace_header(s) {
        Some((n, len)) => {
            lemma_enter_kept(
                s.skip(len),
                OutputActions { backspaces: add_backspaces(a.backspaces, n), enter: a.enter },
            );
        },
        None => if starts_with(s, enter_header()) {
            lemma_enter_kept(s.skip(19), OutputActions { backspaces: a.backspaces, enter: true });
        },
    }
}

proof fn lemma_no_enter(s: Seq<char>, a: OutputActions)
    requires
        !a.enter,
        !contains(s, enter_header()),
    ensures
        !parse_headers(s, a).1.enter,
    decreases s.len(),
{
    lemma_backspace_header_len(s);
    match backspace_header(s) {
        Some((n, len)) => {
            let t = s.skip(len);
            assert(!contains(t, enter_header())) by {
                lemma_find_from(t, enter_header(), 0);
                if contains(t, enter_header()) {
                    let k = find(t, enter_header())->0;
                    assert(s.subrange(k + len, k + len + 19) =~= t.subrange(k, k + 19));
                    lemma_find_from(s, enter_header(), 0);
                    assert(occurs_at(s, enter_header(), k + len));
                }
            }
            lemma_no_enter(t, OutputActions { backspaces: add_backspaces(a.backspaces, n), enter: a.enter });
        },
        None => if starts_with(s, enter_header()) {
            lemma_find_from(s, enter_header(), 0);
            assert(s.subrange(0, 19) =~= s.take(19));
            assert(occurs_at(s, enter_header(), 0));
        },
    }
}

/// An `<<<VOXTYPE:ENTER>>>` header at the front asks for Enter, whatever
/// headers follow it: no later header clears the request. The header is
/// removed, and the text and backspaces are those of the rest.
pub proof fn law_enter_header_requests_enter(rest: Seq<char>)
    ensures
        parse_actions_spec("<<<VOXTYPE:ENTER>>>"@ + rest, true).1.enter,
        parse_actions_spec("<<<VOXTYPE:ENTER>>>"@ + rest, true).0 == parse_actions_spec(
            rest,
            true,
        ).0,
        parse_actions_spec("<<<VOXTYPE:ENTER>>>"@ + rest, true).1.backspaces
            == parse_actions_spec(rest, true).1.backspaces,
{
    reveal_strlit("<<<VOXTYPE:ENTER>>>");
    let s = "<<<VOXTYPE:ENTER>>>"@ + rest;
    assert(s.take(19) =~= enter_header());
    assert(!starts_with(s, backspace_open())) by {
        if s.len() >= 21 {
            assert(s.take(21)[11] == s[11]);
            assert(s[11] == 'E');
        }
    }
    assert(s.skip(19) =~= rest);
    lemma_enter_kept(rest, OutputActions { backspaces: 0, enter: true });
    lemma_parse_acc(rest, OutputActions { backspaces: 0, enter: true });
    lemma_parse_headers(rest, no_actions());
}

/// Enter is asked for only by an `<<<VOXTYPE:ENTER>>>` header: a text that
/// holds none never asks for it.
pub proof fn law_no_enter_without_header(text: Seq<char>, enabled: bool)
    requires
        !contains(text, "<<<VOXTYPE:ENTER>>>"@),
    ensures
        !parse_actions_spec(text, enabled).1.enter,
{
    reveal_strlit("<<<VOXTYPE:ENTER>>>");
    assert("<<<VOXTYPE:ENTER>>>"@ =~= enter_header());
    lemma_no_enter(text, no_actions());
}

proof fn lemma_decimal_digits(n: nat)
    ensures
        decimal(n).len() > 0,
        all_digits(decimal(n)),
        digits_value(decimal(n)) == n,
    decreases n,
{
    let d = n % 10;
    assert(is_digit(digit_char(d)) && digit_val(digit_char(d)) == d);
    if n >= 10 {
        lemma_decimal_digits(n / 10);
        let s = decimal(n / 10);
        assert(decimal(n).drop_last() =~= s);
        assert(decimal(n).last() == digit_char(d));
        assert forall|i: int| 0 <= i < s.len() implies is_digit(#[trigger] decimal(n)[i]) by {
            assert(decimal(n)[i] == s[i]);
        }
        assert(n == (n / 10) * 10 + d);
    } else {
        assert(digits_value(decimal(n).drop_last()) == 0);
    }
}

/// Parsing the headers from an accumulated state `a` is parsing them from
/// nothing, with `a`'s backspaces added (capped) and its Enter kept.
proof fn lemma_parse_acc(s: Seq<char>, a: OutputActions)
    requires
        a.backspaces <= MAX_BACKSPACES,
    ensures
        parse_headers(s, a).0 == parse_headers(s, no_actions()).0,
        parse_headers(s, a).1.enter == (a.enter || parse_headers(s, no_actions()).1.enter),
        parse_headers(s, a).1.backspaces == add_backspaces(
            a.backspaces,
            parse_headers(s, no_actions()).1.backspaces,
        ),
    decreases s.len(),
{
    lemma_backspace_header_len(s);
    match backspace_header(s) {
        Some((n, len)) => {
            let t = s.skip(len);
            let a1 = OutputActions { backspaces: add_backspaces(a.backspaces, n), enter: a.enter };
            let z1 = OutputActions { backspaces: add_backspaces(0, n), enter: false };
            lemma_parse_acc(t, a1);
            lemma_parse_acc(t, z1);
            lemma_parse_headers(t, no_actions());
        },
        None => if starts_with(s, enter_header()) {
            let t = s.skip(19);
            let a1 = OutputActions { backspaces: a.backspaces, enter: true };
            let z1 = OutputActions { backspaces: 0, enter: true };
            lemma_parse_acc(t, a1);
            lemma_parse_acc(t, z1);
            lemma_parse_headers(t, no_actions());
        },
    }
}

/// A header `<<<VOXTYPE:BACKSPACE=N>>>` (N written in decimal) in front of
/// `rest` is removed and asks for N more backspaces: the count adds to
/// what the headers of `rest` ask for, capped at 4096, and the text and the
/// Enter request are those of `rest`.
#[verifier::rlimit(40)]
pub proof fn law_backspace_header_adds(n: u32, rest: Seq<char>)
    ensures
        ({
            let with = parse_actions_spec(
                "<<<VOXTYPE:BACKSPACE="@ + decimal(n as nat) + ">>>"@ + rest,
                true,
            );
            let without = parse_actions_spec(rest, true);
            &&& with.0 == without.0
            &&& with.1.enter == without.1.enter
            &&& with.1.backspaces == if n + without.1.backspaces > 4096 {
                4096
            } else {
                n + without.1.backspaces
            }
        }),
{
    reveal_strlit("<<<VOXTYPE:BACKSPACE=");
    reveal_strlit(">>>");
    let d = decimal(n as nat);
    lemma_decimal_digits(n as nat);
    let s = "<<<VOXTYPE:BACKSPACE="@ + d + ">>>"@ + rest;
    assert(s.take(21) =~= backspace_open());
    let r = s.skip(21);
    assert(r =~= d + ">>>"@ + rest);
    let m = d.len() as int;
    assert(r.subrange(m, m + 3) =~= header_close());
    assert(occurs_at(r, header_close(), m));
    lemma_find_from(r, header_close(), 0);
    assert(find(r, header_close()) is Some);
    let e = find(r, header_close())->0;
    assert(0 <= e <= m);
    if e < m {
        assert(occurs_at(r, header_close(), e));
        assert(r.subrange(e, e + 3)[0] == r[e]);
        assert(r[e] == '>');
        assert(r[e] == d[e]);
        assert(is_digit(d[e]));
    }
    assert(e == m);
    assert(r.take(e) =~= d);
    assert(is_digit(d[0]));
    assert(parse_u32_spec(d) == Some(n));
    assert(backspace_header(s) == Some((n, 21 + m + 3)));
    assert(s.skip(21 + m + 3) =~= rest);
    lemma_parse_acc(rest, OutputActions { backspaces: add_backspaces(0, n), enter: false });
    lemma_parse_headers(rest, no_actions());
}

} // verus!
