//! Meeting mode settings: enabled, audio source, diarization on/off.

use vstd::prelude::*;
use vstd::string::StringExecFns;

use crate::tui::common::{
    cycle_index, feedback_view, index_or, is_down, is_left, is_right, is_up, key_request,
    lemma_index_from, outcome_view, prefixed, request_of, save_feedback, save_feedback_of,
    step_choice, step_choice_from_first, strs_view, FeedbackLevel, Key, KeyRequest,
};
use crate::tui::config_editor::{
    as_bool, as_str, bool_or, same_except, str_or, ConfigEditor, EditorError, ValueView,
};

verus! {

/// The Meeting section's form.
#[derive(Debug)]
pub struct MeetingState {
    pub enabled: bool,
    pub diarization_enabled: bool,
    pub audio_source: String,
    pub field: Field,
    pub feedback: Option<(FeedbackLevel, String)>,
    pub dirty_since_load: bool,
}

/// The rows of the form.
#[derive(Debug, Clone, Copy, PartialEq, Eq, Structural)]
pub enum Field {
    Enabled,
    Diarization,
    AudioSource,
}

/// The position of a row in the form.
pub open spec fn field_index(f: Field) -> int {
    match f {
        Field::Enabled => 0,
        Field::Diarization => 1,
        Field::AudioSource => 2,
    }
}

/// The row at a position of the form.
pub open spec fn field_at(i: int) -> Field {
    if i == 0 {
        Field::Enabled
    } else if i == 1 {
        Field::Diarization
    } else {
        Field::AudioSource
    }
}

impl Field {
    /// The position of the row in the form.
    pub fn index(self) -> (r: usize)
        ensures
            r == field_index(self),
    {
        match self {
            Field::Enabled => 0,
            Field::Diarization => 1,
            Field::AudioSource => 2,
        }
    }

    /// The row at a position of the form.
    pub fn at(i: usize) -> (f: Field)
        ensures
            f == field_at(i as int),
    {
        if i == 0 {
            Field::Enabled
        } else if i == 1 {
            Field::Diarization
        } else {
            Field::AudioSource
        }
    }
}

/// The audio sources, in the order the form cycles through them.
pub open spec fn sources_spec() -> Seq<Seq<char>> {
    seq!["mic"@, "system"@, "both"@]
}

/// The audio sources.
pub fn sources() -> (r: Vec<&'static str>)
    ensures
        strs_view(r@) == sources_spec(),
{
    let r = vec!["mic", "system", "both"];
    assert(strs_view(r@) =~= sources_spec());
    r
}

/// What the form holds of the config.
pub struct MeetingSettings {
    pub enabled: bool,
    pub diarization_enabled: bool,
    pub audio_source: Seq<char>,
}

/// The settings that a config gives the form.
pub open spec fn loaded_settings(ed: ConfigEditor) -> MeetingSettings {
    MeetingSettings {
        enabled: bool_or(as_bool(ed.value("meeting"@, "enabled"@)), false),
        diarization_enabled: bool_or(as_bool(ed.value("meeting.diarization"@, "enabled"@)), false),
        audio_source: str_or(as_str(ed.value("meeting.audio"@, "source"@)), "mic"@),
    }
}

/// The settings in a form.
pub open spec fn settings_of(s: MeetingState) -> MeetingSettings {
    MeetingSettings {
        enabled: s.enabled,
        diarization_enabled: s.diarization_enabled,
        audio_source: s.audio_source@,
    }
}

/// The keys the form writes.
pub open spec fn saved_keys() -> Seq<(Seq<char>, Seq<char>)> {
    seq![
        ("meeting"@, "enabled"@),
        ("meeting.diarization"@, "enabled"@),
        ("meeting.audio"@, "source"@),
    ]
}

/// `after` is `before` with the settings written to it.
pub open spec fn settings_saved(before: ConfigEditor, after: ConfigEditor, s: MeetingSettings) -> bool {
    &&& after.value("meeting"@, "enabled"@) == Some(ValueView::Bool(s.enabled))
    &&& after.value("meeting.diarization"@, "enabled"@) == Some(ValueView::Bool(s.diarization_enabled))
    &&& after.value("meeting.audio"@, "source"@) == Some(ValueView::Str(s.audio_source))
    &&& same_except(before, after, saved_keys())
}

/// The settings after the value of row `f` is changed by `delta`.
pub open spec fn cycled(s: MeetingSettings, f: Field, delta: int) -> MeetingSettings {
    match f {
        Field::Enabled => MeetingSettings { enabled: !s.enabled, ..s },
        Field::Diarization => MeetingSettings { diarization_enabled: !s.diarization_enabled, ..s },
        Field::AudioSource => MeetingSettings {
            audio_source: step_choice(sources_spec(), s.audio_source, delta, 0),
            ..s
        },
    }
}

impl MeetingState {
    /// The form as the config sets it, on its first row.
    pub fn load(ed: &ConfigEditor) -> (s: Self)
        ensures
            settings_of(s) == loaded_settings(*ed),
            s.field == Field::Enabled,
            s.feedback is None,
            !s.dirty_since_load,
    {
        MeetingState {
            enabled: match ed.get_bool("meeting", "enabled") {
                Some(b) => b,
                None => false,
            },
            diarization_enabled: match ed.get_bool("meeting.diarization", "enabled") {
                Some(b) => b,
                None => false,
            },
            audio_source: match ed.get_string("meeting.audio", "source") {
                Some(s) => s,
                None => String::from_str("mic"),
            },
            field: Field::Enabled,
            feedback: None,
            dirty_since_load: false,
        }
    }

    /// Writes the form into the freshly loaded config, which is returned for
    /// the application to save; when the config could not be loaded, reports
    /// the error and returns nothing.
    pub fn save(&mut self, loaded: Result<ConfigEditor, EditorError>) -> (r: Option<ConfigEditor>)
        ensures
            match loaded {
                Ok(ed) => *final(self) == *old(self) && (r matches Some(after) && settings_saved(
                    ed,
                    after,
                    settings_of(*old(self)),
                )),
                Err(e) => r is None && settings_of(*final(self)) == settings_of(*old(self))
                    && final(self).field == old(self).field
                    && final(self).dirty_since_load == old(self).dirty_since_load
                    && feedback_view(final(self).feedback) == Some(
                    (FeedbackLevel::Failure, "load: "@ + e.message@),
                ),
            },
    {
        match loaded {
            Err(e) => {
                self.feedback = Some((FeedbackLevel::Failure, prefixed("load: ", e.message.as_str())));
                None
            },
            Ok(ed) => {
                let ghost before = ed;
                proof {
                    reveal_strlit("meeting");
                    reveal_strlit("meeting.diarization");
                    reveal_strlit("meeting.audio");
                    assert("meeting"@.len() == 7 && "meeting.diarization"@.len() == 19
                        && "meeting.audio"@.len() == 13);
                }
                let mut ed = ed;
                ed.set_bool("meeting", "enabled", self.enabled);
                ed.set_bool("meeting.diarization", "enabled", self.diarization_enabled);
                ed.set_string("meeting.audio", "source", self.audio_source.as_str());
                proof {
                    assert forall|t: Seq<char>, k: Seq<char>|
                        !saved_keys().contains((t, k)) implies #[trigger] ed.value(t, k)
                        == before.value(t, k) by {
                        if t == "meeting"@ && k == "enabled"@ {
                            assert(saved_keys()[0] == (t, k));
                        } else if t == "meeting.diarization"@ && k == "enabled"@ {
                            assert(saved_keys()[1] == (t, k));
                        } else if t == "meeting.audio"@ && k == "source"@ {
                            assert(saved_keys()[2] == (t, k));
                        }
                    }
                }
                Some(ed)
            },
        }
    }

    /// Records the outcome of writing the config: on success the form is
    /// no longer dirty.
    pub fn finish_save(&mut self, outcome: Result<String, EditorError>)
        ensures
            settings_of(*final(self)) == settings_of(*old(self)),
            final(self).field == old(self).field,
            final(self).dirty_since_load == (old(self).dirty_since_load && outcome is Err),
            feedback_view(final(self).feedback) == Some(save_feedback(outcome_view(outcome))),
    {
        let fb = save_feedback_of(&outcome);
        if outcome.is_ok() {
            self.dirty_since_load = false;
        }
        self.feedback = Some(fb);
    }

    /// Reverts the form to the config as loaded again, staying on the same
    /// row; a failed load changes nothing.
    pub fn reset(&mut self, loaded: Result<ConfigEditor, EditorError>)
        ensures
            match loaded {
                Ok(ed) => settings_of(*final(self)) == loaded_settings(ed)
                    && final(self).field == old(self).field
                    && !final(self).dirty_since_load
                    && feedback_view(final(self).feedback) == Some(
                    (FeedbackLevel::Success, "Reverted"@),
                ),
                Err(_) => *final(self) == *old(self),
            },
    {
        if let Ok(ed) = loaded {
            let field = self.field;
            *self = Self::load(&ed);
            self.field = field;
            self.feedback = Some((FeedbackLevel::Success, String::from_str("Reverted")));
        }
    }

    /// Moves `delta` rows through the form, wrapping around.
    pub fn move_field(&mut self, delta: i32)
        requires
            field_index(old(self).field) + delta <= i32::MAX,
        ensures
            final(self).field == field_at((field_index(old(self).field) + delta) % 3),
            settings_of(*final(self)) == settings_of(*old(self)),
            final(self).feedback == old(self).feedback,
            final(self).dirty_since_load == old(self).dirty_since_load,
    {
        let cur = self.field.index();
        let next = cycle_index(cur, delta, 3);
        self.field = Field::at(next);
    }

    /// Changes the value of the current row: a flag is flipped, the audio
    /// source steps `delta` places through the list. The form becomes dirty.
    pub fn cycle(&mut self, delta: i32)
        requires
            old(self).field == Field::AudioSource ==> index_or(sources_spec(), old(self).audio_source@, 0) + delta <= i32::MAX,
        ensures
            final(self).field == old(self).field,
            final(self).dirty_since_load,
            final(self).feedback is None,
            settings_of(*final(self)) == cycled(settings_of(*old(self)), old(self).field, delta as int),
    {
        match self.field {
            Field::Enabled => self.enabled = !self.enabled,
            Field::Diarization => self.diarization_enabled = !self.diarization_enabled,
            Field::AudioSource => {
                let list = sources();
                let next = step_choice_from_first(&list, self.audio_source.as_str(), delta);
                self.audio_source = String::from_str(next);
            },
        }
        self.dirty_since_load = true;
        self.feedback = None;
    }

    /// Applies a key: `↑`/`k` and `↓`/`j` move between rows, `←`/`h` and
    /// `→`/`l`/space change the value; `s` and `r` are returned as requests
    /// to save and to revert.
    pub fn handle_key(&mut self, key: Key) -> (r: KeyRequest)
        ensures
            r == key_request(key),
            is_up(key) ==> final(self).field == field_at((field_index(old(self).field) + 2) % 3),
            is_down(key) ==> final(self).field == field_at((field_index(old(self).field) + 1) % 3),
            is_left(key) ==> settings_of(*final(self)) == cycled(
                settings_of(*old(self)),
                old(self).field,
                -1,
            ) && final(self).dirty_since_load,
            is_right(key) ==> settings_of(*final(self)) == cycled(
                settings_of(*old(self)),
                old(self).field,
                1,
            ) && final(self).dirty_since_load,
            !is_up(key) && !is_down(key) && !is_left(key) && !is_right(key) ==> *final(self)
                == *old(self),
    {
        proof {
            lemma_index_from(sources_spec(), self.audio_source@, 0);
        }
        match key {
            Key::Up | Key::Char('k') => {
                self.move_field(-1);
                assert((field_index(old(self).field) - 1) % 3 == (field_index(old(self).field) + 2) % 3);
            },
            Key::Down | Key::Char('j') => self.move_field(1),
            Key::Left | Key::Char('h') => self.cycle(-1),
            Key::Right | Key::Char('l') | Key::Char(' ') => self.cycle(1),
            _ => {},
        }
        request_of(key)
    }
}

/// Saving the form and loading the config it wrote gives the settings back.
pub proof fn law_save_then_load(before: ConfigEditor, after: ConfigEditor, s: MeetingSettings)
    requires
        settings_saved(before, after, s),
    ensures
        loaded_settings(after) == s,
{
}

/// Changing a flag row twice gives the settings back.
pub proof fn law_flag_cycle_twice(s: MeetingSettings, f: Field, d1: int, d2: int)
    requires
        f != Field::AudioSource,
    ensures
        cycled(cycled(s, f, d1), f, d2) == s,
{
}

} // verus!
