//! Engine section: tunables for the active transcription engine.
//!
//! Currently focuses on Whisper, the default engine. Non-Whisper engines
//! show a placeholder pointing the user at config.toml until each one gets
//! its own form.

use vstd::prelude::*;
use vstd::string::StringExecFns;
use vstd::utf8::{decode_utf8, encode_utf8, encode_utf8_decode_utf8, is_char_boundary};

use crate::text::str_eq;
use crate::tui::common::{
    cycle_index, index_or, is_down, is_left, is_right, is_up, key_request, lemma_index_from,
    outcome_view, prefixed, request_of, save_feedback, step_choice, step_choice_from_first,
    strs_view, Key, KeyRequest,
};
use crate::tui::config_editor::{
    as_bool, as_int, as_str, bool_or, same_except, str_or, ConfigEditor, EditorError, ValueView,
};

verus! {

/// The Engine section's form.
#[derive(Debug)]
pub struct EngineState {
    pub engine: String,
    pub whisper: WhisperFields,
    pub field: WField,
    pub feedback: Option<Feedback>,
    pub dirty_since_load: bool,
}

/// The Whisper settings the form edits.
#[derive(Debug)]
pub struct WhisperFields {
    /// local / remote / cli
    pub mode: String,
    pub language: String,
    pub translate: bool,
    pub threads: Option<i64>,
    pub initial_prompt: Option<String>,
    pub flash_attention: bool,
    pub on_demand_loading: bool,
    pub gpu_isolation: bool,
}

/// A message shown above the form.
#[derive(Debug)]
pub struct Feedback {
    pub level: FeedbackLevel,
    pub message: String,
}

/// Whether a feedback message reports success or failure.
#[derive(Debug, Clone, Copy, PartialEq, Eq, Structural)]
pub enum FeedbackLevel {
    Success,
    Failure,
}

/// The rows of the form.
#[derive(Debug, Clone, Copy, PartialEq, Eq, Structural)]
pub enum WField {
    Mode,
    Language,
    Translate,
    Threads,
    Prompt,
    FlashAttention,
    OnDemandLoading,
    GpuIsolation,
}

/// The position of a row in the form.
pub open spec fn field_index(f: WField) -> int {
    match f {
        WField::Mode => 0,
        WField::Language => 1,
        WField::Translate => 2,
        WField::Threads => 3,
        WField::Prompt => 4,
        WField::FlashAttention => 5,
        WField::OnDemandLoading => 6,
        WField::GpuIsolation => 7,
    }
}

/// The row at a position of the form.
pub open spec fn field_at(i: int) -> WField {
    if i == 0 {
        WField::Mode
    } else if i == 1 {
        WField::Language
    } else if i == 2 {
        WField::Translate
    } else if i == 3 {
        WField::Threads
    } else if i == 4 {
        WField::Prompt
    } else if i == 5 {
        WField::FlashAttention
    } else if i == 6 {
        WField::OnDemandLoading
    } else {
        WField::GpuIsolation
    }
}

impl WField {
    /// The position of the row in the form.
    pub fn index(self) -> (r: usize)
        ensures
            r == field_index(self),
    {
        match self {
            WField::Mode => 0,
            WField::Language => 1,
            WField::Translate => 2,
            WField::Threads => 3,
            WField::Prompt => 4,
            WField::FlashAttention => 5,
            WField::OnDemandLoading => 6,
            WField::GpuIsolation => 7,
        }
    }

    /// The row at a position of the form.
    pub fn at(i: usize) -> (f: WField)
        ensures
            f == field_at(i as int),
    {
        if i == 0 {
            WField::Mode
        } else if i == 1 {
            WField::Language
        } else if i == 2 {
            WField::Translate
        } else if i == 3 {
            WField::Threads
        } else if i == 4 {
            WField::Prompt
        } else if i == 5 {
            WField::FlashAttention
        } else if i == 6 {
            WField::OnDemandLoading
        } else {
            WField::GpuIsolation
        }
    }
}

/// The execution modes, in the order the form cycles through them.
pub open spec fn modes_spec() -> Seq<Seq<char>> {
    seq!["local"@, "remote"@, "cli"@]
}

/// The language choices, in the order the form cycles through them.
pub open spec fn languages_spec() -> Seq<Seq<char>> {
    seq![
        "auto"@, "en"@, "fr"@, "de"@, "it"@, "es"@, "pt"@, "nl"@, "pl"@, "zh"@, "ja"@, "ko"@,
        "ru"@, "ar"@,
    ]
}

/// The execution modes.
pub fn modes() -> (r: Vec<&'static str>)
    ensures
        strs_view(r@) == modes_spec(),
{
    let r = vec!["local", "remote", "cli"];
    assert(strs_view(r@) =~= modes_spec());
    r
}

/// The language choices.
pub fn languages() -> (r: Vec<&'static str>)
    ensures
        strs_view(r@) == languages_spec(),
{
    let r = vec!["auto", "en", "fr", "de", "it", "es", "pt", "nl", "pl", "zh", "ja", "ko", "ru", "ar"];
    assert(strs_view(r@) =~= languages_spec());
    r
}

/// The sample prompt that the form offers.
pub const SAMPLE_PROMPT: &'static str = "Transcribe with proper capitalization and punctuation.";

/// How a line of the help pane is drawn: a heading, bold, plain, or dimmed
/// text (an empty plain line is a blank line).
#[derive(Debug, Clone, Copy, PartialEq, Eq, Structural)]
pub enum GuideStyle {
    Heading,
    Bold,
    Plain,
    Dim,
}

/// Lines by their style and characters.
pub open spec fn guide_view(v: Seq<(GuideStyle, &'static str)>) -> Seq<(GuideStyle, Seq<char>)> {
    Seq::new(v.len(), |i: int| (v[i].0, v[i].1@))
}

/// What the help pane says about a row of the Whisper form.
pub open spec fn guidance_spec(field: WField) -> Seq<(GuideStyle, Seq<char>)> {
    match field {
        WField::Mode => seq![
            (GuideStyle::Heading, "Execution mode"@),
            (GuideStyle::Plain, ""@),
            (GuideStyle::Bold, "local: "@),
            (GuideStyle::Plain, "Transcribe in-process using whisper-rs. Default; no network."@),
            (GuideStyle::Plain, ""@),
            (GuideStyle::Bold, "remote: "@),
            (GuideStyle::Plain, "Send audio to an OpenAI-compatible Whisper endpoint. Set [whisper] remote_endpoint and remote_api_key first."@),
            (GuideStyle::Plain, ""@),
            (GuideStyle::Bold, "cli: "@),
            (GuideStyle::Plain, "Shell out to a `whisper` CLI. Useful for testing custom builds without rebuilding voxtype."@),
        ],
        WField::Language => seq![
            (GuideStyle::Heading, "Language"@),
            (GuideStyle::Plain, ""@),
            (GuideStyle::Plain, "BCP-47-ish language code or `auto`. With `auto`, Whisper detects the language per recording (slightly slower)."@),
            (GuideStyle::Plain, ""@),
            (GuideStyle::Plain, "Lock to a specific code (en, fr, de, ja, …) when you only ever dictate in one language — Whisper skips detection and won't accidentally switch mid-sentence."@),
            (GuideStyle::Plain, ""@),
            (GuideStyle::Dim, "Multi-language allowlists (e.g. \"en,fr,de\") can be set in config.toml as an array."@),
        ],
        WField::Translate => seq![
            (GuideStyle::Heading, "Translate to English"@),
            (GuideStyle::Plain, ""@),
            (GuideStyle::Plain, "When on, Whisper translates non-English speech to English in the transcript. Off by default."@),
            (GuideStyle::Plain, ""@),
            (GuideStyle::Plain, "Useful for capturing meetings where someone speaks another language and you want a single English transcript."@),
        ],
        WField::Threads => seq![
            (GuideStyle::Heading, "CPU threads"@),
            (GuideStyle::Plain, ""@),
            (GuideStyle::Plain, "Number of threads Whisper uses for inference. `auto` lets voxtype pick (typically physical-core count)."@),
            (GuideStyle::Plain, ""@),
            (GuideStyle::Plain, "Lower it if you want voxtype to leave headroom for other tasks. Bump it to physical-core count if you're CPU-only and want max throughput."@),
        ],
        WField::Prompt => seq![
            (GuideStyle::Heading, "Initial prompt"@),
            (GuideStyle::Plain, ""@),
            (GuideStyle::Plain, "Hints Whisper about terminology, capitalization, or formatting. Whisper biases output toward what the prompt establishes."@),
            (GuideStyle::Plain, ""@),
            (GuideStyle::Plain, "Useful for proper nouns and technical terms (\"Tern\", \"Voxtype\", \"Hyprland\") so Whisper doesn't transcribe them as common words."@),
            (GuideStyle::Plain, ""@),
            (GuideStyle::Dim, "TUI cycles (none) / sample. Edit the body in config.toml directly for a custom prompt."@),
        ],
        WField::FlashAttention => seq![
            (GuideStyle::Heading, "Flash attention"@),
            (GuideStyle::Plain, ""@),
            (GuideStyle::Plain, "GPU-only optimization that reduces memory bandwidth in the attention layers. Faster on Vulkan/CUDA, especially on large-v3."@),
            (GuideStyle::Plain, ""@),
            (GuideStyle::Plain, "No effect on CPU runs. Crashes on a few older driver combinations — leave it off if Whisper hangs."@),
        ],
        WField::OnDemandLoading => seq![
            (GuideStyle::Heading, "On-demand model loading"@),
            (GuideStyle::Plain, ""@),
            (GuideStyle::Plain, "Loads the model only when you start recording, then unloads. Frees ~1-2 GB of RAM at idle."@),
            (GuideStyle::Plain, ""@),
            (GuideStyle::Plain, "Adds a one-shot delay on the first key press of each dictation. Worth it if you dictate sporadically; not worth it if you're constantly hitting the PTT key."@),
        ],
        WField::GpuIsolation => seq![
            (GuideStyle::Heading, "GPU isolation"@),
            (GuideStyle::Plain, ""@),
            (GuideStyle::Plain, "Each transcription runs in a short-lived subprocess that exits afterward, releasing all VRAM."@),
            (GuideStyle::Plain, ""@),
            (GuideStyle::Plain, "Useful on hybrid-graphics laptops to let the discrete GPU power down between dictations. Adds ~100-300ms startup per transcription."@),
        ],
    }
}

/// What the help pane says about a row of the Whisper form, line by line.
pub fn guidance_for_field(field: WField) -> (r: Vec<(GuideStyle, &'static str)>)
    ensures
        guide_view(r@) == guidance_spec(field),
{
    let r = match field {
        WField::Mode => vec![
            (GuideStyle::Heading, "Execution mode"),
            (GuideStyle::Plain, ""),
            (GuideStyle::Bold, "local: "),
            (GuideStyle::Plain, "Transcribe in-process using whisper-rs. Default; no network."),
            (GuideStyle::Plain, ""),
            (GuideStyle::Bold, "remote: "),
            (GuideStyle::Plain, "Send audio to an OpenAI-compatible Whisper endpoint. Set [whisper] remote_endpoint and remote_api_key first."),
            (GuideStyle::Plain, ""),
            (GuideStyle::Bold, "cli: "),
            (GuideStyle::Plain, "Shell out to a `whisper` CLI. Useful for testing custom builds without rebuilding voxtype."),
        ],
        WField::Language => vec![
            (GuideStyle::Heading, "Language"),
            (GuideStyle::Plain, ""),
            (GuideStyle::Plain, "BCP-47-ish language code or `auto`. With `auto`, Whisper detects the language per recording (slightly slower)."),
            (GuideStyle::Plain, ""),
            (GuideStyle::Plain, "Lock to a specific code (en, fr, de, ja, …) when you only ever dictate in one language — Whisper skips detection and won't accidentally switch mid-sentence."),
            (GuideStyle::Plain, ""),
            (GuideStyle::Dim, "Multi-language allowlists (e.g. \"en,fr,de\") can be set in config.toml as an array."),
        ],
        WField::Translate => vec![
            (GuideStyle::Heading, "Translate to English"),
            (GuideStyle::Plain, ""),
            (GuideStyle::Plain, "When on, Whisper translates non-English speech to English in the transcript. Off by default."),
            (GuideStyle::Plain, ""),
            (GuideStyle::Plain, "Useful for capturing meetings where someone speaks another language and you want a single English transcript."),
        ],
        WField::Threads => vec![
            (GuideStyle::Heading, "CPU threads"),
            (GuideStyle::Plain, ""),
            (GuideStyle::Plain, "Number of threads Whisper uses for inference. `auto` lets voxtype pick (typically physical-core count)."),
            (GuideStyle::Plain, ""),
            (GuideStyle::Plain, "Lower it if you want voxtype to leave headroom for other tasks. Bump it to physical-core count if you're CPU-only and want max throughput."),
        ],
        WField::Prompt => vec![
            (GuideStyle::Heading, "Initial prompt"),
            (GuideStyle::Plain, ""),
            (GuideStyle::Plain, "Hints Whisper about terminology, capitalization, or formatting. Whisper biases output toward what the prompt establishes."),
            (GuideStyle::Plain, ""),
            (GuideStyle::Plain, "Useful for proper nouns and technical terms (\"Tern\", \"Voxtype\", \"Hyprland\") so Whisper doesn't transcribe them as common words."),
            (GuideStyle::Plain, ""),
            (GuideStyle::Dim, "TUI cycles (none) / sample. Edit the body in config.toml directly for a custom prompt."),
        ],
        WField::FlashAttention => vec![
            (GuideStyle::Heading, "Flash attention"),
            (GuideStyle::Plain, ""),
            (GuideStyle::Plain, "GPU-only optimization that reduces memory bandwidth in the attention layers. Faster on Vulkan/CUDA, especially on large-v3."),
            (GuideStyle::Plain, ""),
            (GuideStyle::Plain, "No effect on CPU runs. Crashes on a few older driver combinations — leave it off if Whisper hangs."),
        ],
        WField::OnDemandLoading => vec![
            (GuideStyle::Heading, "On-demand model loading"),
            (GuideStyle::Plain, ""),
            (GuideStyle::Plain, "Loads the model only when you start recording, then unloads. Frees ~1-2 GB of RAM at idle."),
            (GuideStyle::Plain, ""),
            (GuideStyle::Plain, "Adds a one-shot delay on the first key press of each dictation. Worth it if you dictate sporadically; not worth it if you're constantly hitting the PTT key."),
        ],
        WField::GpuIsolation => vec![
            (GuideStyle::Heading, "GPU isolation"),
            (GuideStyle::Plain, ""),
            (GuideStyle::Plain, "Each transcription runs in a short-lived subprocess that exits afterward, releasing all VRAM."),
            (GuideStyle::Plain, ""),
            (GuideStyle::Plain, "Useful on hybrid-graphics laptops to let the discrete GPU power down between dictations. Adds ~100-300ms startup per transcription."),
        ],
    };
    assert(guide_view(r@) =~= guidance_spec(field));
    r
}

/// The number of bytes of a prompt that the form shows.
pub const PROMPT_SHOWN_BYTES: usize = 30;

/// The prompt as the form shows it: `(none)` when unset; one of more than
/// 30 bytes (in UTF-8) cut to its first 30 bytes and followed by `…`.
pub open spec fn prompt_shown(p: Option<Seq<char>>) -> Seq<char> {
    match p {
        None => "(none)"@,
        Some(s) => if encode_utf8(s).len() > 30 {
            decode_utf8(encode_utf8(s).subrange(0, 30)) + "…"@
        } else {
            s
        },
    }
}

/// A prompt can be shown: its UTF-8 length fits a `usize`, and a cut after
/// 30 bytes falls between two characters.
pub open spec fn prompt_showable(p: Option<Seq<char>>) -> bool {
    match p {
        None => true,
        Some(s) => encode_utf8(s).len() <= usize::MAX && (encode_utf8(s).len() > 30
            ==> is_char_boundary(encode_utf8(s), 30)),
    }
}

/// The prompt as the form shows it.
pub fn prompt_display(p: &Option<String>) -> (r: String)
    requires
        prompt_showable(opt_view(*p)),
    ensures
        r@ == prompt_shown(opt_view(*p)),
{
    match p {
        None => String::from_str("(none)"),
        Some(s) => {
            let t = s.as_str();
            if t.len() > PROMPT_SHOWN_BYTES {
                let (head, _) = t.split_at(PROMPT_SHOWN_BYTES);
                proof {
                    encode_utf8_decode_utf8(head@);
                }
                let mut out = String::from_str(head);
                out.append("…");
                out
            } else {
                String::from_str(t)
            }
        },
    }
}

/// The Whisper settings by their values.
pub struct WhisperSettings {
    pub mode: Seq<char>,
    pub language: Seq<char>,
    pub translate: bool,
    pub threads: Option<i64>,
    pub initial_prompt: Option<Seq<char>>,
    pub flash_attention: bool,
    pub on_demand_loading: bool,
    pub gpu_isolation: bool,
}

/// An optional string by its characters.
pub open spec fn opt_view(o: Option<String>) -> Option<Seq<char>> {
    match o {
        Some(s) => Some(s@),
        None => None,
    }
}

/// The settings in the form.
pub open spec fn settings_of(w: WhisperFields) -> WhisperSettings {
    WhisperSettings {
        mode: w.mode@,
        language: w.language@,
        translate: w.translate,
        threads: w.threads,
        initial_prompt: opt_view(w.initial_prompt),
        flash_attention: w.flash_attention,
        on_demand_loading: w.on_demand_loading,
        gpu_isolation: w.gpu_isolation,
    }
}

/// The Whisper settings a config gives the form.
pub open spec fn loaded_settings(ed: ConfigEditor) -> WhisperSettings {
    WhisperSettings {
        mode: str_or(as_str(ed.value("whisper"@, "mode"@)), "local"@),
        language: str_or(as_str(ed.value("whisper"@, "language"@)), "auto"@),
        translate: bool_or(as_bool(ed.value("whisper"@, "translate"@)), false),
        threads: as_int(ed.value("whisper"@, "threads"@)),
        initial_prompt: as_str(ed.value("whisper"@, "initial_prompt"@)),
        flash_attention: bool_or(as_bool(ed.value("whisper"@, "flash_attention"@)), false),
        on_demand_loading: bool_or(as_bool(ed.value("whisper"@, "on_demand_loading"@)), false),
        gpu_isolation: bool_or(as_bool(ed.value("whisper"@, "gpu_isolation"@)), false),
    }
}

/// The engine a config selects (`engine`, `whisper` when unset).
pub open spec fn loaded_engine(ed: ConfigEditor) -> Seq<char> {
    str_or(as_str(ed.value(""@, "engine"@)), "whisper"@)
}

/// The keys the form writes.
pub open spec fn saved_keys() -> Seq<(Seq<char>, Seq<char>)> {
    seq![
        ("whisper"@, "mode"@),
        ("whisper"@, "language"@),
        ("whisper"@, "translate"@),
        ("whisper"@, "threads"@),
        ("whisper"@, "initial_prompt"@),
        ("whisper"@, "flash_attention"@),
        ("whisper"@, "on_demand_loading"@),
        ("whisper"@, "gpu_isolation"@),
    ]
}

/// `after` is `before` with the settings written to it; unset threads and
/// an unset or empty prompt are removed.
pub open spec fn settings_saved(before: ConfigEditor, after: ConfigEditor, s: WhisperSettings) -> bool {
    &&& after.value("whisper"@, "mode"@) == Some(ValueView::Str(s.mode))
    &&& after.value("whisper"@, "language"@) == Some(ValueView::Str(s.language))
    &&& after.value("whisper"@, "translate"@) == Some(ValueView::Bool(s.translate))
    &&& after.value("whisper"@, "threads"@) == match s.threads {
        Some(n) => Some(ValueView::Int(n)),
        None => None,
    }
    &&& after.value("whisper"@, "initial_prompt"@) == match s.initial_prompt {
        Some(p) => if p.len() > 0 {
            Some(ValueView::Str(p))
        } else {
            None
        },
        None => None,
    }
    &&& after.value("whisper"@, "flash_attention"@) == Some(ValueView::Bool(s.flash_attention))
    &&& after.value("whisper"@, "on_demand_loading"@) == Some(ValueView::Bool(s.on_demand_loading))
    &&& after.value("whisper"@, "gpu_isolation"@) == Some(ValueView::Bool(s.gpu_isolation))
    &&& same_except(before, after, saved_keys())
}

/// The thread count after a step of `delta` from `cur`: `None` (auto) at or
/// below zero, else capped at 64.
pub open spec fn step_threads(cur: Option<i64>, delta: int) -> Option<i64> {
    let c = match cur {
        Some(n) => n as int,
        None => 0,
    };
    let next = c + delta;
    if next <= 0 {
        None
    } else if next > 64 {
        Some(64)
    } else {
        Some(next as i64)
    }
}

/// The settings after the value of row `f` is changed by `delta`.
pub open spec fn cycled(s: WhisperSettings, f: WField, delta: int) -> WhisperSettings {
    match f {
        WField::Mode => WhisperSettings { mode: step_choice(modes_spec(), s.mode, delta, 0), ..s },
        WField::Language => WhisperSettings {
            language: step_choice(languages_spec(), s.language, delta, 0),
            ..s
        },
        WField::Translate => WhisperSettings { translate: !s.translate, ..s },
        WField::Threads => WhisperSettings { threads: step_threads(s.threads, delta), ..s },
        WField::Prompt => WhisperSettings {
            initial_prompt: if s.initial_prompt is Some {
                None
            } else {
                Some(SAMPLE_PROMPT@)
            },
            ..s
        },
        WField::FlashAttention => WhisperSettings { flash_attention: !s.flash_attention, ..s },
        WField::OnDemandLoading => WhisperSettings { on_demand_loading: !s.on_demand_loading, ..s },
        WField::GpuIsolation => WhisperSettings { gpu_isolation: !s.gpu_isolation, ..s },
    }
}

/// A feedback message by its level and characters.
pub open spec fn feedback_view(f: Option<Feedback>) -> Option<(FeedbackLevel, Seq<char>)> {
    match f {
        Some(fb) => Some((fb.level, fb.message@)),
        None => None,
    }
}

/// This section's level for a shared one.
pub open spec fn level_of(l: crate::tui::common::FeedbackLevel) -> FeedbackLevel {
    match l {
        crate::tui::common::FeedbackLevel::Success => FeedbackLevel::Success,
        crate::tui::common::FeedbackLevel::Failure => FeedbackLevel::Failure,
    }
}

/// The guard that a step of the current row does not overflow.
pub open spec fn cycle_in_range(s: EngineState, delta: int) -> bool {
    &&& s.field == WField::Mode ==> index_or(modes_spec(), s.whisper.mode@, 0) + delta <= i32::MAX
    &&& s.field == WField::Language ==> index_or(languages_spec(), s.whisper.language@, 0) + delta
        <= i32::MAX
    &&& s.field == WField::Threads ==> match s.whisper.threads {
        Some(n) => i64::MIN <= n + delta <= i64::MAX,
        None => true,
    }
}

fn get_str_or(ed: &ConfigEditor, table: &str, key: &str, dflt: &str) -> (r: String)
    ensures
        r@ == str_or(as_str(ed.value(table@, key@)), dflt@),
{
    match ed.get_string(table, key) {
        Some(s) => s,
        None => String::from_str(dflt),
    }
}

fn get_bool_or(ed: &ConfigEditor, table: &str, key: &str, dflt: bool) -> (r: bool)
    ensures
        r == bool_or(as_bool(ed.value(table@, key@)), dflt),
{
    match ed.get_bool(table, key) {
        Some(b) => b,
        None => dflt,
    }
}

impl EngineState {
    /// The form as the config sets it, on its first row.
    pub fn load(ed: &ConfigEditor) -> (s: Self)
        ensures
            s.engine@ == loaded_engine(*ed),
            settings_of(s.whisper) == loaded_settings(*ed),
            s.field == WField::Mode,
            s.feedback is None,
            !s.dirty_since_load,
    {
        let engine = get_str_or(ed, "", "engine", "whisper");
        let whisper = WhisperFields {
            mode: get_str_or(ed, "whisper", "mode", "local"),
            language: get_str_or(ed, "whisper", "language", "auto"),
            translate: get_bool_or(ed, "whisper", "translate", false),
            threads: ed.get_int("whisper", "threads"),
            initial_prompt: ed.get_string("whisper", "initial_prompt"),
            flash_attention: get_bool_or(ed, "whisper", "flash_attention", false),
            on_demand_loading: get_bool_or(ed, "whisper", "on_demand_loading", false),
            gpu_isolation: get_bool_or(ed, "whisper", "gpu_isolation", false),
        };
        EngineState { engine, whisper, field: WField::Mode, feedback: None, dirty_since_load: false }
    }

    /// Writes the form into the freshly loaded config, which is returned for
    /// the application to save; when the config could not be loaded, reports
    /// the error and returns nothing.
    pub fn save(&mut self, loaded: Result<ConfigEditor, EditorError>) -> (r: Option<ConfigEditor>)
        ensures
            match loaded {
                Ok(ed) => *final(self) == *old(self) && (r matches Some(after) && settings_saved(
                    ed,
                    after,
                    settings_of(old(self).whisper),
                )),
                Err(e) => r is None && final(self).whisper == old(self).whisper
                    && final(self).engine == old(self).engine
                    && final(self).field == old(self).field
                    && final(self).dirty_since_load == old(self).dirty_since_load
                    && feedback_view(final(self).feedback) == Some(
                    (FeedbackLevel::Failure, "load: "@ + e.message@),
                ),
            },
    {
        match loaded {
            Err(e) => {
                self.feedback = Some(
                    Feedback {
                        level: FeedbackLevel::Failure,
                        message: prefixed("load: ", e.message.as_str()),
                    },
                );
                None
            },
            Ok(ed) => {
                let ghost before = ed;
                proof {
                    reveal_strlit("mode");
                    reveal_strlit("language");
                    reveal_strlit("translate");
                    reveal_strlit("threads");
                    reveal_strlit("initial_prompt");
                    reveal_strlit("flash_attention");
                    reveal_strlit("on_demand_loading");
                    reveal_strlit("gpu_isolation");
                    assert("mode"@.len() == 4 && "language"@.len() == 8 && "translate"@.len() == 9
                        && "threads"@.len() == 7 && "initial_prompt"@.len() == 14
                        && "flash_attention"@.len() == 15 && "on_demand_loading"@.len() == 17
                        && "gpu_isolation"@.len() == 13);
                }
                let mut ed = ed;
                let w = &self.whisper;
                ed.set_string("whisper", "mode", w.mode.as_str());
                ed.set_string("whisper", "language", w.language.as_str());
                ed.set_bool("whisper", "translate", w.translate);
                match w.threads {
                    Some(n) => ed.set_int("whisper", "threads", n),
                    None => ed.unset("whisper", "threads"),
                }
                match &w.initial_prompt {
                    Some(p) => {
                        if !p.as_str().is_empty() {
                            ed.set_string("whisper", "initial_prompt", p.as_str());
                        } else {
                            ed.unset("whisper", "initial_prompt");
                        }
                    },
                    None => ed.unset("whisper", "initial_prompt"),
                }
                ed.set_bool("whisper", "flash_attention", w.flash_attention);
                ed.set_bool("whisper", "on_demand_loading", w.on_demand_loading);
                ed.set_bool("whisper", "gpu_isolation", w.gpu_isolation);
                proof {
                    assert forall|t: Seq<char>, k: Seq<char>|
                        !saved_keys().contains((t, k)) implies #[trigger] ed.value(t, k)
                        == before.value(t, k) by {
                        if t == "whisper"@ {
                            if k == "mode"@ {
                                assert(saved_keys()[0] == (t, k));
                            } else if k == "language"@ {
                                assert(saved_keys()[1] == (t, k));
                            } else if k == "translate"@ {
                                assert(saved_keys()[2] == (t, k));
                            } else if k == "threads"@ {
                                assert(saved_keys()[3] == (t, k));
                            } else if k == "initial_prompt"@ {
                                assert(saved_keys()[4] == (t, k));
                            } else if k == "flash_attention"@ {
                                assert(saved_keys()[5] == (t, k));
                            } else if k == "on_demand_loading"@ {
                                assert(saved_keys()[6] == (t, k));
                            } else if k == "gpu_isolation"@ {
                                assert(saved_keys()[7] == (t, k));
                            }
                        }
                    }
                }
                Some(ed)
            },
        }
    }

    /// Records the outcome of writing the config: on success the form is
    /// no longer dirty.
    pub fn finish_save(&mut self, outcome: Result<String, EditorError>)
        ensures
            final(self).whisper == old(self).whisper,
            final(self).engine == old(self).engine,
            final(self).field == old(self).field,
            final(self).dirty_since_load == (old(self).dirty_since_load && outcome is Err),
            feedback_view(final(self).feedback) == Some(
                (
                    level_of(save_feedback(outcome_view(outcome)).0),
                    save_feedback(outcome_view(outcome)).1,
                ),
            ),
    {
        match outcome {
            Ok(path) => {
                self.dirty_since_load = false;
                self.feedback = Some(
                    Feedback {
                        level: FeedbackLevel::Success,
                        message: prefixed("Saved to ", path.as_str()),
                    },
                );
            },
            Err(e) => {
                self.feedback = Some(
                    Feedback {
                        level: FeedbackLevel::Failure,
                        message: prefixed("save: ", e.message.as_str()),
                    },
                );
            },
        }
    }

    /// Reverts the form to the config as loaded again, staying on the same
    /// row; a failed load is reported and changes nothing else.
    pub fn reset(&mut self, loaded: Result<ConfigEditor, EditorError>)
        ensures
            match loaded {
                Ok(ed) => final(self).engine@ == loaded_engine(ed)
                    && settings_of(final(self).whisper) == loaded_settings(ed)
                    && final(self).field == old(self).field
                    && !final(self).dirty_since_load
                    && feedback_view(final(self).feedback) == Some(
                    (FeedbackLevel::Success, "Reverted unsaved changes"@),
                ),
                Err(e) => final(self).whisper == old(self).whisper
                    && final(self).engine == old(self).engine
                    && final(self).field == old(self).field
                    && final(self).dirty_since_load == old(self).dirty_since_load
                    && feedback_view(final(self).feedback) == Some(
                    (FeedbackLevel::Failure, "reload: "@ + e.message@),
                ),
            },
    {
        match loaded {
            Ok(ed) => {
                let field = self.field;
                *self = Self::load(&ed);
                self.field = field;
                self.feedback = Some(
                    Feedback {
                        level: FeedbackLevel::Success,
                        message: String::from_str("Reverted unsaved changes"),
                    },
                );
            },
            Err(e) => {
                self.feedback = Some(
                    Feedback {
                        level: FeedbackLevel::Failure,
                        message: prefixed("reload: ", e.message.as_str()),
                    },
                );
            },
        }
    }

    /// Moves `delta` rows through the form, wrapping around.
    pub fn move_field(&mut self, delta: i32)
        requires
            field_index(old(self).field) + delta <= i32::MAX,
        ensures
            final(self).field == field_at((field_index(old(self).field) + delta) % 8),
            final(self).whisper == old(self).whisper,
            final(self).engine == old(self).engine,
            final(self).feedback == old(self).feedback,
            final(self).dirty_since_load == old(self).dirty_since_load,
    {
        let cur = self.field.index();
        let next = cycle_index(cur, delta, 8);
        self.field = WField::at(next);
    }

    /// Changes the value of the current row by `delta`. The form becomes
    /// dirty.
    pub fn cycle(&mut self, delta: i32)
        requires
            cycle_in_range(*old(self), delta as int),
        ensures
            final(self).field == old(self).field,
            final(self).engine == old(self).engine,
            final(self).dirty_since_load,
            final(self).feedback is None,
            settings_of(final(self).whisper) == cycled(
                settings_of(old(self).whisper),
                old(self).field,
                delta as int,
            ),
    {
        let w = &mut self.whisper;
        match self.field {
            WField::Mode => {
                let list = modes();
                let next = step_choice_from_first(&list, w.mode.as_str(), delta);
                w.mode = String::from_str(next);
            },
            WField::Language => {
                let list = languages();
                let next = step_choice_from_first(&list, w.language.as_str(), delta);
                w.language = String::from_str(next);
            },
            WField::Translate => w.translate = !w.translate,
            WField::Threads => {
                let cur: i64 = match w.threads {
                    Some(n) => n,
                    None => 0,
                };
                let next: i64 = cur + delta as i64;
                w.threads = if next <= 0 {
                    None
                } else if next > 64 {
                    Some(64)
                } else {
                    Some(next)
                };
            },
            WField::Prompt => {
                // Toggles between (none) and a sample prompt.
                if w.initial_prompt.is_some() {
                    w.initial_prompt = None;
                } else {
                    w.initial_prompt = Some(String::from_str(SAMPLE_PROMPT));
                }
            },
            WField::FlashAttention => w.flash_attention = !w.flash_attention,
            WField::OnDemandLoading => w.on_demand_loading = !w.on_demand_loading,
            WField::GpuIsolation => w.gpu_isolation = !w.gpu_isolation,
        }
        self.dirty_since_load = true;
        self.feedback = None;
    }

    /// Whether the form is for Whisper, the only engine it edits.
    pub fn is_whisper(&self) -> (b: bool)
        ensures
            b == (self.engine@ == "whisper"@),
    {
        str_eq(self.engine.as_str(), "whisper")
    }

    /// Applies a key when the engine is Whisper (any other engine ignores
    /// keys): `↑`/`k` and `↓`/`j` move between rows, `←`/`h` and
    /// `→`/`l`/space change the value; `s` and `r` are returned as requests
    /// to save and to revert.
    pub fn handle_key(&mut self, key: Key) -> (r: KeyRequest)
        requires
            is_left(key) ==> cycle_in_range(*old(self), -1),
            is_right(key) ==> cycle_in_range(*old(self), 1),
        ensures
            old(self).engine@ != "whisper"@ ==> r == KeyRequest::Nothing
                && *final(self) == *old(self),
            old(self).engine@ == "whisper"@ ==> {
                &&& r == key_request(key)
                &&& is_up(key) ==> final(self).field == field_at(
                    (field_index(old(self).field) + 7) % 8,
                )
                &&& is_down(key) ==> final(self).field == field_at(
                    (field_index(old(self).field) + 1) % 8,
                )
                &&& is_left(key) ==> settings_of(final(self).whisper) == cycled(
                    settings_of(old(self).whisper),
                    old(self).field,
                    -1,
                )
                &&& is_right(key) ==> settings_of(final(self).whisper) == cycled(
                    settings_of(old(self).whisper),
                    old(self).field,
                    1,
                )
                &&& !is_up(key) && !is_down(key) && !is_left(key) && !is_right(key)
                    ==> *final(self) == *old(self)
            },
    {
        if !self.is_whisper() {
            return KeyRequest::Nothing;
        }
        match key {
            Key::Up | Key::Char('k') => {
                self.move_field(-1);
                assert((field_index(old(self).field) - 1) % 8 == (field_index(old(self).field) + 7) % 8);
            },
            Key::Down | Key::Char('j') => self.move_field(1),
            Key::Left | Key::Char('h') => self.cycle(-1),
            Key::Right | Key::Char('l') | Key::Char(' ') => self.cycle(1),
            _ => {},
        }
        request_of(key)
    }
}

/// Saving the form and loading the config it wrote gives the settings back,
/// unless the prompt is set but empty (an empty prompt is not written, so it
/// reads back as unset).
pub proof fn law_save_then_load(before: ConfigEditor, after: ConfigEditor, s: WhisperSettings)
    requires
        settings_saved(before, after, s),
        s.initial_prompt matches Some(p) ==> p.len() > 0,
    ensures
        loaded_settings(after) == s,
{
}

/// Stepping the thread count gives auto or a count from 1 to 64.
pub proof fn law_threads_in_range(cur: Option<i64>, delta: int)
    ensures
        step_threads(cur, delta) matches Some(n) ==> 1 <= n <= 64,
{
}

/// Changing the prompt row twice from "(none)" comes back to "(none)".
pub proof fn law_prompt_toggle(s: WhisperSettings, d1: int, d2: int)
    requires
        s.initial_prompt is None,
    ensures
        cycled(cycled(s, WField::Prompt, d1), WField::Prompt, d2) == s,
{
}

} // verus!
