//! Voice Activity Detection settings.
//!
//! The speech threshold is a float: the application holds it beside the
//! form defined here, formats it for the config and steps it. Everything
//! else the section does is here.

use vstd::prelude::*;
use vstd::string::StringExecFns;

use crate::tui::common::{
    cycle_index, feedback_view, index_or, is_down, is_left, is_right, is_up, key_request,
    lemma_index_from, outcome_view, prefixed, request_of, save_feedback, save_feedback_of,
    step_choice, step_choice_from_first, strs_view, FeedbackLevel, Key, KeyRequest,
};
use crate::tui::config_editor::{
    as_bool, as_str, bool_or, same_except, str_or, ConfigEditor, EditorError, ValueView,
};

verus! {

/// The rows of the form.
#[derive(Debug, Clone, Copy, PartialEq, Eq, Structural)]
pub enum Field {
    Enabled,
    Backend,
    Threshold,
}

/// The position of a row in the form.
pub open spec fn field_index(f: Field) -> int {
    match f {
        Field::Enabled => 0,
        Field::Backend => 1,
        Field::Threshold => 2,
    }
}

/// The row at a position of the form.
pub open spec fn field_at(i: int) -> Field {
    if i == 0 {
        Field::Enabled
    } else if i == 1 {
        Field::Backend
    } else {
        Field::Threshold
    }
}

impl Field {
    /// The position of the row in the form.
    pub fn index(self) -> (r: usize)
        ensures
            r == field_index(self),
    {
        match self {
            Field::Enabled => 0,
            Field::Backend => 1,
            Field::Threshold => 2,
        }
    }

    /// The row at a position of the form.
    pub fn at(i: usize) -> (f: Field)
        ensures
            f == field_at(i as int),
    {
        if i == 0 {
            Field::Enabled
        } else if i == 1 {
            Field::Backend
        } else {
            Field::Threshold
        }
    }

    /// The row `delta` rows away, wrapping around.
    pub fn step(self, delta: i32) -> (f: Field)
        ensures
            f == field_at((field_index(self) + delta) % 3),
    {
        Field::at(cycle_index(self.index(), delta, 3))
    }
}

/// The VAD backends, in the order the form cycles through them.
pub open spec fn backends_spec() -> Seq<Seq<char>> {
    seq!["auto"@, "energy"@, "whisper"@]
}

/// The VAD backends.
pub fn backends() -> (r: Vec<&'static str>)
    ensures
        strs_view(r@) == backends_spec(),
{
    let r = vec!["auto", "energy", "whisper"];
    assert(strs_view(r@) =~= backends_spec());
    r
}

/// The backend `delta` steps from `cur` (from the first when `cur` is not
/// listed), wrapping around.
pub fn step_backend(cur: &str, delta: i32) -> (r: &'static str)
    requires
        index_or(backends_spec(), cur@, 0) + delta <= i32::MAX,
    ensures
        r@ == step_choice(backends_spec(), cur@, delta as int, 0),
{
    let list = backends();
    step_choice_from_first(&list, cur, delta)
}

/// The VAD section's form but for the speech threshold, which the
/// application keeps beside it.
#[derive(Debug)]
pub struct VadForm {
    pub enabled: bool,
    pub backend: String,
    pub field: Field,
    pub feedback: Option<(FeedbackLevel, String)>,
    pub dirty_since_load: bool,
}

/// What the form holds of the config (table `vad`).
pub struct VadSettings {
    pub enabled: bool,
    pub backend: Seq<char>,
}

/// The settings that a config gives the form.
pub open spec fn loaded_settings(ed: ConfigEditor) -> VadSettings {
    VadSettings {
        enabled: bool_or(as_bool(ed.value("vad"@, "enabled"@)), false),
        backend: str_or(as_str(ed.value("vad"@, "backend"@)), "auto"@),
    }
}

/// The settings in a form.
pub open spec fn settings_of(s: VadForm) -> VadSettings {
    VadSettings { enabled: s.enabled, backend: s.backend@ }
}

/// The keys the section writes.
pub open spec fn saved_keys() -> Seq<(Seq<char>, Seq<char>)> {
    seq![("vad"@, "enabled"@), ("vad"@, "backend"@), ("vad"@, "threshold"@)]
}

/// `after` is `before` with the settings and the threshold's text written
/// to it.
pub open spec fn settings_saved(
    before: ConfigEditor,
    after: ConfigEditor,
    s: VadSettings,
    threshold: Seq<char>,
) -> bool {
    &&& after.value("vad"@, "enabled"@) == Some(ValueView::Bool(s.enabled))
    &&& after.value("vad"@, "backend"@) == Some(ValueView::Str(s.backend))
    &&& after.value("vad"@, "threshold"@) == Some(ValueView::Str(threshold))
    &&& same_except(before, after, saved_keys())
}

/// The settings after the value of row `f` is changed by `delta` (the
/// threshold row changes only the threshold, which the application holds).
pub open spec fn cycled(s: VadSettings, f: Field, delta: int) -> VadSettings {
    match f {
        Field::Enabled => VadSettings { enabled: !s.enabled, ..s },
        Field::Backend => VadSettings {
            backend: step_choice(backends_spec(), s.backend, delta, 0),
            ..s
        },
        Field::Threshold => s,
    }
}

impl VadForm {
    /// The form as the config sets it, on its first row.
    pub fn load(ed: &ConfigEditor) -> (s: Self)
        ensures
            settings_of(s) == loaded_settings(*ed),
            s.field == Field::Enabled,
            s.feedback is None,
            !s.dirty_since_load,
    {
        VadForm {
            enabled: match ed.get_bool("vad", "enabled") {
                Some(b) => b,
                None => false,
            },
            backend: match ed.get_string("vad", "backend") {
                Some(b) => b,
                None => String::from_str("auto"),
            },
            field: Field::Enabled,
            feedback: None,
            dirty_since_load: false,
        }
    }

    /// Writes the form, with the threshold's text, into the freshly loaded
    /// config, which is returned for the application to save; when the
    /// config could not be loaded, reports the error and returns nothing.
    pub fn save(&mut self, loaded: Result<ConfigEditor, EditorError>, threshold: &str) -> (r:
        Option<ConfigEditor>)
        ensures
            match loaded {
                Ok(ed) => *final(self) == *old(self) && (r matches Some(after) && settings_saved(
                    ed,
                    after,
                    settings_of(*old(self)),
                    threshold@,
                )),
                Err(e) => r is None && settings_of(*final(self)) == settings_of(*old(self))
                    && final(self).field == old(self).field
                    && final(self).dirty_since_load == old(self).dirty_since_load
                    && feedback_view(final(self).feedback) == Some(
                    (FeedbackLevel::Failure, "load: "@ + e.message@),
                ),
            },
    {
        match loaded {
            Err(e) => {
                self.feedback = Some((FeedbackLevel::Failure, prefixed("load: ", e.message.as_str())));
                None
            },
            Ok(ed) => {
                let ghost before = ed;
                proof {
                    reveal_strlit("enabled");
                    reveal_strlit("backend");
                    reveal_strlit("threshold");
                    assert("enabled"@.len() == 7 && "backend"@.len() == 7 && "threshold"@.len()
                        == 9);
                    assert("enabled"@[0] != "backend"@[0]);
                }
                let mut ed = ed;
                ed.set_bool("vad", "enabled", self.enabled);
                ed.set_string("vad", "backend", self.backend.as_str());
                ed.set_string("vad", "threshold", threshold);
                proof {
                    assert forall|t: Seq<char>, k: Seq<char>|
                        !saved_keys().contains((t, k)) implies #[trigger] ed.value(t, k)
                        == before.value(t, k) by {
                        if t == "vad"@ && k == "enabled"@ {
                            assert(saved_keys()[0] == (t, k));
                        } else if t == "vad"@ && k == "backend"@ {
                            assert(saved_keys()[1] == (t, k));
                        } else if t == "vad"@ && k == "threshold"@ {
                            assert(saved_keys()[2] == (t, k));
                        }
                    }
                }
                Some(ed)
            },
        }
    }

    /// Records the outcome of writing the config: on success the form is
    /// no longer dirty.
    pub fn finish_save(&mut self, outcome: Result<String, EditorError>)
        ensures
            settings_of(*final(self)) == settings_of(*old(self)),
            final(self).field == old(self).field,
            final(self).dirty_since_load == (old(self).dirty_since_load && outcome is Err),
            feedback_view(final(self).feedback) == Some(save_feedback(outcome_view(outcome))),
    {
        let fb = save_feedback_of(&outcome);
        if outcome.is_ok() {
            self.dirty_since_load = false;
        }
        self.feedback = Some(fb);
    }

    /// Reverts the form to the config as loaded again, staying on the same
    /// row; a failed load is reported and changes nothing else.
    pub fn reset(&mut self, loaded: Result<ConfigEditor, EditorError>)
        ensures
            final(self).field == old(self).field,
            match loaded {
                Ok(ed) => settings_of(*final(self)) == loaded_settings(ed)
                    && !final(self).dirty_since_load
                    && feedback_view(final(self).feedback) == Some(
                    (FeedbackLevel::Success, "Reverted"@),
                ),
                Err(e) => settings_of(*final(self)) == settings_of(*old(self))
                    && final(self).dirty_since_load == old(self).dirty_since_load
                    && feedback_view(final(self).feedback) == Some(
                    (FeedbackLevel::Failure, "reload: "@ + e.message@),
                ),
            },
    {
        match loaded {
            Ok(ed) => {
                let field = self.field;
                *self = Self::load(&ed);
                self.field = field;
                self.feedback = Some((FeedbackLevel::Success, String::from_str("Reverted")));
            },
            Err(e) => {
                self.feedback = Some((FeedbackLevel::Failure, prefixed("reload: ", e.message.as_str())));
            },
        }
    }

    /// Moves `delta` rows through the form, wrapping around.
    pub fn move_field(&mut self, delta: i32)
        ensures
            final(self).field == field_at((field_index(old(self).field) + delta) % 3),
            settings_of(*final(self)) == settings_of(*old(self)),
            final(self).feedback == old(self).feedback,
            final(self).dirty_since_load == old(self).dirty_since_load,
    {
        self.field = self.field.step(delta);
    }

    /// Changes the value of the current row: the flag is flipped, the
    /// backend steps `delta` places through the list; on the threshold row
    /// the application steps the threshold. The form becomes dirty.
    pub fn cycle(&mut self, delta: i32)
        requires
            old(self).field == Field::Backend ==> index_or(backends_spec(), old(self).backend@, 0)
                + delta <= i32::MAX,
        ensures
            final(self).field == old(self).field,
            final(self).dirty_since_load,
            final(self).feedback is None,
            settings_of(*final(self)) == cycled(settings_of(*old(self)), old(self).field, delta as int),
    {
        match self.field {
            Field::Enabled => self.enabled = !self.enabled,
            Field::Backend => {
                let next = step_backend(self.backend.as_str(), delta);
                self.backend = String::from_str(next);
            },
            Field::Threshold => {},
        }
        self.dirty_since_load = true;
        self.feedback = None;
    }

    /// Applies a key: `↑`/`k` and `↓`/`j` move between rows, `←`/`h` and
    /// `→`/`l`/space change the value; `s` and `r` are returned as requests
    /// to save and to revert.
    pub fn handle_key(&mut self, key: Key) -> (r: KeyRequest)
        ensures
            r == key_request(key),
            is_up(key) ==> final(self).field == field_at((field_index(old(self).field) + 2) % 3),
            is_down(key) ==> final(self).field == field_at((field_index(old(self).field) + 1) % 3),
            is_left(key) ==> settings_of(*final(self)) == cycled(
                settings_of(*old(self)),
                old(self).field,
                -1,
            ) && final(self).dirty_since_load,
            is_right(key) ==> settings_of(*final(self)) == cycled(
                settings_of(*old(self)),
                old(self).field,
                1,
            ) && final(self).dirty_since_load,
            !is_up(key) && !is_down(key) && !is_left(key) && !is_right(key) ==> *final(self)
                == *old(self),
    {
        proof {
            lemma_index_from(backends_spec(), self.backend@, 0);
        }
        match key {
            Key::Up | Key::Char('k') => {
                self.move_field(-1);
                assert((field_index(old(self).field) - 1) % 3 == (field_index(old(self).field) + 2) % 3);
            },
            Key::Down | Key::Char('j') => self.move_field(1),
            Key::Left | Key::Char('h') => self.cycle(-1),
            Key::Right | Key::Char('l') | Key::Char(' ') => self.cycle(1),
            _ => {},
        }
        request_of(key)
    }
}

/// Saving the form and loading the config it wrote gives the settings, and
/// the threshold's text, back.
pub proof fn law_save_then_load(
    before: ConfigEditor,
    after: ConfigEditor,
    s: VadSettings,
    threshold: Seq<char>,
)
    requires
        settings_saved(before, after, s, threshold),
    ensures
        loaded_settings(after) == s,
        as_str(after.value("vad"@, "threshold"@)) == Some(threshold),
{
}

/// Flipping the enabled flag twice gives the settings back.
pub proof fn law_enabled_twice(s: VadSettings, d1: int, d2: int)
    ensures
        cycled(cycled(s, Field::Enabled, d1), Field::Enabled, d2) == s,
{
}

} // verus!
