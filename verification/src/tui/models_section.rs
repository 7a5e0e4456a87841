//! Models section: current engine + model picker for the active engine.
//!
//! Lists models known to voxtype for the configured engine, marks which are
//! installed on disk, and lets the user pick one. Downloads still happen via
//! `voxtype setup model`; this section is for switching between models
//! already pulled. The application supplies the catalog: the engine's model
//! names and whether each is installed.

use vstd::prelude::*;
use vstd::string::StringExecFns;

use crate::text::{index_from, str_eq};
use crate::tui::common::{
    cycle_index, index_or, is_down, is_up, key_request, lemma_index_from, prefixed, request_of,
    Key, KeyRequest,
};
use crate::tui::config_editor::{as_str, same_except, str_or, ConfigEditor, EditorError, ValueView};

verus! {

/// The Models section's state.
#[derive(Debug)]
pub struct ModelsState {
    pub engine: String,
    pub current_model: String,
    /// (model name, installed?) tuples for the active engine.
    pub catalog: Vec<(String, bool)>,
    pub cursor: usize,
    pub feedback: Option<Feedback>,
    pub dirty_since_load: bool,
}

/// A message shown above the list.
#[derive(Debug)]
pub struct Feedback {
    pub level: FeedbackLevel,
    pub message: String,
}

/// Whether a feedback message reports success or failure.
#[derive(Debug, Clone, Copy, PartialEq, Eq, Structural)]
pub enum FeedbackLevel {
    Success,
    Failure,
}

/// A feedback message by its level and characters.
pub open spec fn feedback_view(f: Option<Feedback>) -> Option<(FeedbackLevel, Seq<char>)> {
    match f {
        Some(fb) => Some((fb.level, fb.message@)),
        None => None,
    }
}

/// Which list of model names an engine's catalog is drawn from.
#[derive(Debug, Clone, Copy, PartialEq, Eq, Structural)]
pub enum ModelList {
    Whisper,
    Parakeet,
    Moonshine,
    SenseVoice,
    /// No models are known for the engine.
    Unknown,
}

/// The list an engine's catalog is drawn from.
pub open spec fn model_list_spec(engine: Seq<char>) -> ModelList {
    if engine == "whisper"@ {
        ModelList::Whisper
    } else if engine == "parakeet"@ {
        ModelList::Parakeet
    } else if engine == "moonshine"@ {
        ModelList::Moonshine
    } else if engine == "sensevoice"@ {
        ModelList::SenseVoice
    } else {
        ModelList::Unknown
    }
}

/// The list an engine's catalog is drawn from.
pub fn model_list(engine: &str) -> (r: ModelList)
    ensures
        r == model_list_spec(engine@),
{
    if str_eq(engine, "whisper") {
        ModelList::Whisper
    } else if str_eq(engine, "parakeet") {
        ModelList::Parakeet
    } else if str_eq(engine, "moonshine") {
        ModelList::Moonshine
    } else if str_eq(engine, "sensevoice") {
        ModelList::SenseVoice
    } else {
        ModelList::Unknown
    }
}

/// Whisper's `ggml-{name}.bin` file name convention.
pub fn whisper_filename(name: &str) -> (r: String)
    ensures
        r@ == "ggml-"@ + name@ + ".bin"@,
{
    let mut s = String::from_str("ggml-");
    s.append(name);
    s.append(".bin");
    s
}

/// The name under the models directory whose presence marks a model as
/// installed: Whisper's file name for a Whisper model, the model's own name
/// for other engines.
pub fn installed_name(engine: &str, name: &str) -> (r: String)
    ensures
        r@ == (if engine@ == "whisper"@ {
            "ggml-"@ + name@ + ".bin"@
        } else {
            name@
        }),
{
    if str_eq(engine, "whisper") {
        whisper_filename(name)
    } else {
        String::from_str(name)
    }
}

/// How a model is marked in the list: the active one, one on disk, or one
/// not downloaded yet.
#[derive(Debug, Clone, Copy, PartialEq, Eq, Structural)]
pub enum RowMarker {
    Active,
    Installed,
    NotDownloaded,
}

/// The marker of model `name` when `current` is the active model.
pub open spec fn row_marker_spec(name: Seq<char>, installed: bool, current: Seq<char>) -> RowMarker {
    if name == current {
        RowMarker::Active
    } else if installed {
        RowMarker::Installed
    } else {
        RowMarker::NotDownloaded
    }
}

/// The text of a model's row: its name, followed by `  (not downloaded)`
/// when it is not on disk.
pub open spec fn row_text_spec(name: Seq<char>, installed: bool) -> Seq<char> {
    if installed {
        name
    } else {
        name + "  (not downloaded)"@
    }
}

/// The marker and the text of a model's row in the list.
pub fn catalog_row(name: &str, installed: bool, current: &str) -> (r: (RowMarker, String))
    ensures
        r.0 == row_marker_spec(name@, installed, current@),
        r.1@ == row_text_spec(name@, installed),
{
    let marker = if str_eq(name, current) {
        RowMarker::Active
    } else if installed {
        RowMarker::Installed
    } else {
        RowMarker::NotDownloaded
    };
    let text = if installed {
        String::from_str(name)
    } else {
        prefixed(name, "  (not downloaded)")
    };
    (marker, text)
}

/// The names of a catalog's models.
pub open spec fn catalog_names(c: Seq<(String, bool)>) -> Seq<Seq<char>> {
    Seq::new(c.len(), |i: int| c[i].0@)
}

/// The catalog of the models `names`, with whether each is installed.
pub fn build_catalog(names: &Vec<String>, installed: &Vec<bool>) -> (r: Vec<(String, bool)>)
    requires
        names@.len() == installed@.len(),
    ensures
        r@.len() == names@.len(),
        forall|i: int| 0 <= i < r@.len() ==> (#[trigger] r@[i]).0@ == names@[i]@ && r@[i].1
            == installed@[i],
{
    let mut out: Vec<(String, bool)> = Vec::new();
    let mut i: usize = 0;
    while i < names.len()
        invariant
            names@.len() == installed@.len(),
            i <= names@.len(),
            out@.len() == i,
            forall|j: int| 0 <= j < i ==> (#[trigger] out@[j]).0@ == names@[j]@ && out@[j].1
                == installed@[j],
        decreases names@.len() - i,
    {
        out.push((names[i].clone(), installed[i]));
        i = i + 1;
    }
    out
}

/// The engine a config selects: `engine`, else `transcription.engine`,
/// else `whisper`.
pub open spec fn loaded_engine(ed: ConfigEditor) -> Seq<char> {
    match as_str(ed.value(""@, "engine"@)) {
        Some(e) => e,
        None => str_or(as_str(ed.value("transcription"@, "engine"@)), "whisper"@),
    }
}

/// The model a config selects for `engine`: `whisper.model` (default
/// `small.en`), `parakeet.model` (default `parakeet-tdt-0.6b-v3`), or the
/// engine's own table's `model` (default empty).
pub open spec fn loaded_model(ed: ConfigEditor, engine: Seq<char>) -> Seq<char> {
    if engine == "whisper"@ {
        str_or(as_str(ed.value("whisper"@, "model"@)), "small.en"@)
    } else if engine == "parakeet"@ {
        str_or(as_str(ed.value("parakeet"@, "model"@)), "parakeet-tdt-0.6b-v3"@)
    } else {
        str_or(as_str(ed.value(engine, "model"@)), Seq::empty())
    }
}

/// The table whose `model` key saving writes for `engine` (`whisper` for an
/// engine without a table of its own).
pub open spec fn model_table(engine: Seq<char>) -> Seq<char> {
    if engine == "parakeet"@ || engine == "moonshine"@ || engine == "sensevoice"@ || engine
        == "paraformer"@ || engine == "dolphin"@ || engine == "omnilingual"@ {
        engine
    } else {
        "whisper"@
    }
}

/// The table whose `model` key saving writes for `engine`.
pub fn model_table_of(engine: &str) -> (r: &'static str)
    ensures
        r@ == model_table(engine@),
{
    if str_eq(engine, "parakeet") {
        "parakeet"
    } else if str_eq(engine, "moonshine") {
        "moonshine"
    } else if str_eq(engine, "sensevoice") {
        "sensevoice"
    } else if str_eq(engine, "paraformer") {
        "paraformer"
    } else if str_eq(engine, "dolphin") {
        "dolphin"
    } else if str_eq(engine, "omnilingual") {
        "omnilingual"
    } else {
        "whisper"
    }
}

/// `after` is `before` with `model` written as the model of `engine`.
pub open spec fn model_saved(before: ConfigEditor, after: ConfigEditor, engine: Seq<char>, model: Seq<char>) -> bool {
    &&& after.value(model_table(engine), "model"@) == Some(ValueView::Str(model))
    &&& same_except(before, after, seq![(model_table(engine), "model"@)])
}

/// The catalog holds model names and cursor positions that the list can
/// step through.
pub open spec fn cursor_in_range(s: ModelsState) -> bool {
    &&& s.catalog@.len() <= i32::MAX
    &&& s.cursor <= i32::MAX
}

/// The engine a config selects.
pub fn configured_engine(ed: &ConfigEditor) -> (r: String)
    ensures
        r@ == loaded_engine(*ed),
{
    match ed.get_string("", "engine") {
        Some(e) => e,
        None => match ed.get_string("transcription", "engine") {
            Some(e) => e,
            None => String::from_str("whisper"),
        },
    }
}

/// The position of `name` in the catalog.
fn catalog_position(catalog: &Vec<(String, bool)>, name: &str) -> (r: Option<usize>)
    ensures
        match r {
            Some(i) => index_from(catalog_names(catalog@), name@, 0) == Some(i as int),
            None => index_from(catalog_names(catalog@), name@, 0) is None,
        },
{
    let ghost cs = catalog_names(catalog@);
    let mut i: usize = 0;
    while i < catalog.len()
        invariant
            cs == catalog_names(catalog@),
            i <= catalog@.len(),
            index_from(cs, name@, 0) == index_from(cs, name@, i as int),
        decreases catalog@.len() - i,
    {
        if str_eq(catalog[i].0.as_str(), name) {
            return Some(i);
        }
        i = i + 1;
    }
    None
}

impl ModelsState {
    /// The section as the config sets it, with the catalog of the
    /// configured engine; the cursor is on the current model, or on the
    /// first entry when the current model is not in the catalog.
    pub fn load(ed: &ConfigEditor, catalog: Vec<(String, bool)>) -> (s: Self)
        ensures
            s.engine@ == loaded_engine(*ed),
            s.current_model@ == loaded_model(*ed, loaded_engine(*ed)),
            s.catalog@ == catalog@,
            s.cursor == index_or(catalog_names(catalog@), s.current_model@, 0),
            s.feedback is None,
            !s.dirty_since_load,
    {
        let engine = configured_engine(ed);
        let current_model = if str_eq(engine.as_str(), "whisper") {
            match ed.get_string("whisper", "model") {
                Some(m) => m,
                None => String::from_str("small.en"),
            }
        } else if str_eq(engine.as_str(), "parakeet") {
            match ed.get_string("parakeet", "model") {
                Some(m) => m,
                None => String::from_str("parakeet-tdt-0.6b-v3"),
            }
        } else {
            match ed.get_string(engine.as_str(), "model") {
                Some(m) => m,
                None => String::new(),
            }
        };
        let cursor = match catalog_position(&catalog, current_model.as_str()) {
            Some(i) => i,
            None => 0,
        };
        ModelsState {
            engine,
            current_model,
            catalog,
            cursor,
            feedback: None,
            dirty_since_load: false,
        }
    }

    /// Writes the selected model into the freshly loaded config, which is
    /// returned for the application to save; when the config could not be
    /// loaded, reports the error and returns nothing.
    pub fn save(&mut self, loaded: Result<ConfigEditor, EditorError>) -> (r: Option<ConfigEditor>)
        ensures
            match loaded {
                Ok(ed) => *final(self) == *old(self) && (r matches Some(after) && model_saved(
                    ed,
                    after,
                    old(self).engine@,
                    old(self).current_model@,
                )),
                Err(e) => r is None && final(self).engine == old(self).engine
                    && final(self).current_model == old(self).current_model
                    && final(self).catalog == old(self).catalog
                    && final(self).cursor == old(self).cursor
                    && final(self).dirty_since_load == old(self).dirty_since_load
                    && feedback_view(final(self).feedback) == Some(
                    (FeedbackLevel::Failure, "load: "@ + e.message@),
                ),
            },
    {
        match loaded {
            Err(e) => {
                self.feedback = Some(
                    Feedback {
                        level: FeedbackLevel::Failure,
                        message: prefixed("load: ", e.message.as_str()),
                    },
                );
                None
            },
            Ok(ed) => {
                let ghost before = ed;
                let mut ed = ed;
                let table = model_table_of(self.engine.as_str());
                ed.set_string(table, "model", self.current_model.as_str());
                proof {
                    assert forall|t: Seq<char>, k: Seq<char>|
                        !seq![(model_table(self.engine@), "model"@)].contains((t, k)) implies #[trigger] ed.value(
                        t,
                        k,
                    ) == before.value(t, k) by {
                        if t == table@ && k == "model"@ {
                            assert(seq![(model_table(self.engine@), "model"@)][0] == (t, k));
                        }
                    }
                }
                Some(ed)
            },
        }
    }

    /// Records the outcome of writing the config: on success the section is
    /// no longer dirty and reports the table and model written.
    pub fn finish_save(&mut self, outcome: Result<String, EditorError>)
        ensures
            final(self).engine == old(self).engine,
            final(self).current_model == old(self).current_model,
            final(self).catalog == old(self).catalog,
            final(self).cursor == old(self).cursor,
            final(self).dirty_since_load == (old(self).dirty_since_load && outcome is Err),
            feedback_view(final(self).feedback) == Some(
                match outcome {
                    Ok(_) => (
                        FeedbackLevel::Success,
                        "Saved ["@ + model_table(old(self).engine@) + "] model = "@
                            + old(self).current_model@,
                    ),
                    Err(e) => (FeedbackLevel::Failure, "save: "@ + e.message@),
                },
            ),
    {
        match outcome {
            Ok(_) => {
                let table = model_table_of(self.engine.as_str());
                let mut msg = String::from_str("Saved [");
                msg.append(table);
                msg.append("] model = ");
                msg.append(self.current_model.as_str());
                self.dirty_since_load = false;
                self.feedback = Some(Feedback { level: FeedbackLevel::Success, message: msg });
            },
            Err(e) => {
                self.feedback = Some(
                    Feedback {
                        level: FeedbackLevel::Failure,
                        message: prefixed("save: ", e.message.as_str()),
                    },
                );
            },
        }
    }

    /// Reverts the section to the config as loaded again (with the catalog
    /// the application gives for it), keeping the cursor where it was as far
    /// as the catalog reaches; a failed load is reported and changes
    /// nothing else.
    pub fn reset(&mut self, loaded: Result<ConfigEditor, EditorError>, catalog: Vec<(String, bool)>)
        ensures
            match loaded {
                Ok(ed) => final(self).engine@ == loaded_engine(ed)
                    && final(self).current_model@ == loaded_model(ed, loaded_engine(ed))
                    && final(self).catalog@ == catalog@
                    && final(self).cursor == (if catalog@.len() == 0 {
                        0
                    } else if old(self).cursor < catalog@.len() - 1 {
                        old(self).cursor as int
                    } else {
                        catalog@.len() - 1
                    })
                    && !final(self).dirty_since_load
                    && feedback_view(final(self).feedback) == Some(
                    (FeedbackLevel::Success, "Reverted unsaved changes"@),
                ),
                Err(e) => final(self).engine == old(self).engine
                    && final(self).current_model == old(self).current_model
                    && final(self).catalog == old(self).catalog
                    && final(self).cursor == old(self).cursor
                    && final(self).dirty_since_load == old(self).dirty_since_load
                    && feedback_view(final(self).feedback) == Some(
                    (FeedbackLevel::Failure, "reload: "@ + e.message@),
                ),
            },
    {
        match loaded {
            Ok(ed) => {
                let cursor = self.cursor;
                *self = Self::load(&ed, catalog);
                let last = if self.catalog.len() == 0 {
                    0
                } else {
                    self.catalog.len() - 1
                };
                self.cursor = if cursor < last {
                    cursor
                } else {
                    last
                };
                self.feedback = Some(
                    Feedback {
                        level: FeedbackLevel::Success,
                        message: String::from_str("Reverted unsaved changes"),
                    },
                );
            },
            Err(e) => {
                self.feedback = Some(
                    Feedback {
                        level: FeedbackLevel::Failure,
                        message: prefixed("reload: ", e.message.as_str()),
                    },
                );
            },
        }
    }

    /// Moves the cursor `delta` entries through the catalog, wrapping
    /// around; an empty catalog leaves it alone.
    pub fn move_cursor(&mut self, delta: i32)
        requires
            cursor_in_range(*old(self)),
            old(self).cursor + delta <= i32::MAX,
        ensures
            final(self).cursor == (if old(self).catalog@.len() == 0 {
                old(self).cursor as int
            } else {
                (old(self).cursor + delta) % (old(self).catalog@.len() as int)
            }),
            final(self).engine == old(self).engine,
            final(self).current_model == old(self).current_model,
            final(self).catalog == old(self).catalog,
            final(self).feedback == old(self).feedback,
            final(self).dirty_since_load == old(self).dirty_since_load,
    {
        if self.catalog.len() == 0 {
            return;
        }
        self.cursor = cycle_index(self.cursor, delta, self.catalog.len());
    }

    /// Makes the model under the cursor the current one; choosing the
    /// current model again changes nothing.
    pub fn select_at_cursor(&mut self)
        ensures
            final(self).engine == old(self).engine,
            final(self).catalog == old(self).catalog,
            final(self).cursor == old(self).cursor,
            old(self).cursor < old(self).catalog@.len() && old(self).catalog@[old(
                self,
            ).cursor as int].0@ != old(self).current_model@ ==> {
                &&& final(self).current_model@ == old(self).catalog@[old(self).cursor as int].0@
                &&& final(self).dirty_since_load
                &&& final(self).feedback is None
            },
            !(old(self).cursor < old(self).catalog@.len() && old(self).catalog@[old(
                self,
            ).cursor as int].0@ != old(self).current_model@) ==> *final(self) == *old(self),
    {
        if self.cursor < self.catalog.len() {
            let name = &self.catalog[self.cursor].0;
            if !str_eq(name.as_str(), self.current_model.as_str()) {
                self.current_model = name.clone();
                self.dirty_since_load = true;
                self.feedback = None;
            }
        }
    }

    /// Applies a key: `↑`/`k` and `↓`/`j` move the cursor, Enter and space
    /// select; `s` and `r` are returned as requests to save and to revert.
    pub fn handle_key(&mut self, key: Key) -> (r: KeyRequest)
        requires
            cursor_in_range(*old(self)),
            old(self).cursor < i32::MAX,
        ensures
            r == key_request(key),
            final(self).catalog == old(self).catalog,
            is_up(key) && old(self).catalog@.len() > 0 ==> final(self).cursor == (old(self).cursor
                + old(self).catalog@.len() - 1) % (old(self).catalog@.len() as int),
            is_down(key) && old(self).catalog@.len() > 0 ==> final(self).cursor == (old(self).cursor
                + 1) % (old(self).catalog@.len() as int),
            (key == Key::Enter || key == Key::Char(' ')) && old(self).cursor < old(
                self,
            ).catalog@.len() && old(self).catalog@[old(self).cursor as int].0@ != old(
                self,
            ).current_model@ ==> final(self).current_model@ == old(self).catalog@[old(
                self,
            ).cursor as int].0@ && final(self).dirty_since_load,
            !is_up(key) && !is_down(key) && key != Key::Enter && key != Key::Char(' ') ==> *final(self) == *old(self),
    {
        match key {
            Key::Up | Key::Char('k') => {
                self.move_cursor(-1);
                proof {
                    let n = old(self).catalog@.len() as int;
                    let c = old(self).cursor as int;
                    if n > 0 {
                        assert((c - 1) % n == (c + n - 1) % n) by (nonlinear_arith)
                            requires n > 0;
                    }
                }
            },
            Key::Down | Key::Char('j') => self.move_cursor(1),
            Key::Enter | Key::Char(' ') => self.select_at_cursor(),
            _ => {},
        }
        request_of(key)
    }
}

/// Saving the selected model and loading the config it wrote gives the
/// model back, for every engine that has a table of its own (an engine
/// without one has its model written to `whisper`, but read from its own
/// table).
pub proof fn law_save_then_load(before: ConfigEditor, after: ConfigEditor, engine: Seq<char>, model: Seq<char>)
    requires
        model_saved(before, after, engine, model),
        engine == "whisper"@ || model_table(engine) == engine,
    ensures
        loaded_model(after, engine) == model,
{
    reveal_strlit("whisper");
    reveal_strlit("parakeet");
    assert("whisper"@.len() == 7 && "parakeet"@.len() == 8);
}

/// For Whisper and for each engine whose own table the save writes
/// (Parakeet, Moonshine, SenseVoice, Paraformer, Dolphin, Omnilingual),
/// saving a model and loading the config again gives that model back: the
/// model is written to the table it is read from.
pub proof fn law_saved_model_reloads(
    before: ConfigEditor,
    after: ConfigEditor,
    engine: Seq<char>,
    model: Seq<char>,
)
    requires
        model_saved(before, after, engine, model),
        engine == "whisper"@ || engine == "parakeet"@ || engine == "moonshine"@ || engine
            == "sensevoice"@ || engine == "paraformer"@ || engine == "dolphin"@ || engine
            == "omnilingual"@,
    ensures
        loaded_model(after, engine) == model,
        engine != "whisper"@ ==> after.value(engine, "model"@) == Some(ValueView::Str(model)),
{
    reveal_strlit("whisper");
    reveal_strlit("parakeet");
    reveal_strlit("moonshine");
    reveal_strlit("sensevoice");
    reveal_strlit("paraformer");
    reveal_strlit("dolphin");
    reveal_strlit("omnilingual");
    assert("whisper"@.len() == 7 && "parakeet"@.len() == 8 && "moonshine"@.len() == 9);
    assert("sensevoice"@.len() == 10 && "paraformer"@.len() == 10 && "dolphin"@.len() == 7);
    assert("omnilingual"@.len() == 11);
    assert("whisper"@[0] != "dolphin"@[0]);
}

} // verus!
