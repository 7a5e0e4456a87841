//! Desktop notifications section.

use vstd::prelude::*;
use vstd::string::StringExecFns;

use crate::tui::common::{
    cycle_index, feedback_view, is_down, is_left, is_right, is_up, key_request, outcome_view,
    prefixed, request_of, save_feedback, save_feedback_of, FeedbackLevel, Key, KeyRequest,
};
use crate::tui::config_editor::{as_bool, bool_or, same_except, ConfigEditor, EditorError, ValueView};

verus! {

/// The Notifications section's form.
#[derive(Debug)]
pub struct NotificationsState {
    pub on_recording_start: bool,
    pub on_recording_stop: bool,
    pub on_transcription: bool,
    pub show_engine_icon: bool,
    pub field: Field,
    pub feedback: Option<(FeedbackLevel, String)>,
    pub dirty_since_load: bool,
}

/// The rows of the form.
#[derive(Debug, Clone, Copy, PartialEq, Eq, Structural)]
pub enum Field {
    OnStart,
    OnStop,
    OnTranscription,
    ShowEngineIcon,
}

/// The position of a row in the form.
pub open spec fn field_index(f: Field) -> int {
    match f {
        Field::OnStart => 0,
        Field::OnStop => 1,
        Field::OnTranscription => 2,
        Field::ShowEngineIcon => 3,
    }
}

/// The row at a position of the form.
pub open spec fn field_at(i: int) -> Field {
    if i == 0 {
        Field::OnStart
    } else if i == 1 {
        Field::OnStop
    } else if i == 2 {
        Field::OnTranscription
    } else {
        Field::ShowEngineIcon
    }
}

impl Field {
    /// The position of the row in the form.
    pub fn index(self) -> (r: usize)
        ensures
            r == field_index(self),
    {
        match self {
            Field::OnStart => 0,
            Field::OnStop => 1,
            Field::OnTranscription => 2,
            Field::ShowEngineIcon => 3,
        }
    }

    /// The row at a position of the form.
    pub fn at(i: usize) -> (f: Field)
        ensures
            f == field_at(i as int),
    {
        if i == 0 {
            Field::OnStart
        } else if i == 1 {
            Field::OnStop
        } else if i == 2 {
            Field::OnTranscription
        } else {
            Field::ShowEngineIcon
        }
    }
}

/// The config table the section edits.
pub const TABLE: &'static str = "output.notification";

/// What the form holds of the config.
pub struct NotificationSettings {
    pub on_recording_start: bool,
    pub on_recording_stop: bool,
    pub on_transcription: bool,
    pub show_engine_icon: bool,
}

/// The settings that a config gives the form (transcription notices on
/// unless set, the others off).
pub open spec fn loaded_settings(ed: ConfigEditor) -> NotificationSettings {
    NotificationSettings {
        on_recording_start: bool_or(as_bool(ed.value(TABLE@, "on_recording_start"@)), false),
        on_recording_stop: bool_or(as_bool(ed.value(TABLE@, "on_recording_stop"@)), false),
        on_transcription: bool_or(as_bool(ed.value(TABLE@, "on_transcription"@)), true),
        show_engine_icon: bool_or(as_bool(ed.value(TABLE@, "show_engine_icon"@)), false),
    }
}

/// The settings in a form.
pub open spec fn settings_of(s: NotificationsState) -> NotificationSettings {
    NotificationSettings {
        on_recording_start: s.on_recording_start,
        on_recording_stop: s.on_recording_stop,
        on_transcription: s.on_transcription,
        show_engine_icon: s.show_engine_icon,
    }
}

/// The keys the form writes.
pub open spec fn saved_keys() -> Seq<(Seq<char>, Seq<char>)> {
    seq![
        (TABLE@, "on_recording_start"@),
        (TABLE@, "on_recording_stop"@),
        (TABLE@, "on_transcription"@),
        (TABLE@, "show_engine_icon"@),
    ]
}

/// `after` is `before` with the settings written to it.
pub open spec fn settings_saved(before: ConfigEditor, after: ConfigEditor, s: NotificationSettings) -> bool {
    &&& after.value(TABLE@, "on_recording_start"@) == Some(ValueView::Bool(s.on_recording_start))
    &&& after.value(TABLE@, "on_recording_stop"@) == Some(ValueView::Bool(s.on_recording_stop))
    &&& after.value(TABLE@, "on_transcription"@) == Some(ValueView::Bool(s.on_transcription))
    &&& after.value(TABLE@, "show_engine_icon"@) == Some(ValueView::Bool(s.show_engine_icon))
    &&& same_except(before, after, saved_keys())
}

/// The settings after the flag of row `f` is flipped.
pub open spec fn cycled(s: NotificationSettings, f: Field) -> NotificationSettings {
    match f {
        Field::OnStart => NotificationSettings { on_recording_start: !s.on_recording_start, ..s },
        Field::OnStop => NotificationSettings { on_recording_stop: !s.on_recording_stop, ..s },
        Field::OnTranscription => NotificationSettings { on_transcription: !s.on_transcription, ..s },
        Field::ShowEngineIcon => NotificationSettings { show_engine_icon: !s.show_engine_icon, ..s },
    }
}

impl NotificationsState {
    /// The form as the config sets it, on its first row.
    pub fn load(ed: &ConfigEditor) -> (s: Self)
        ensures
            settings_of(s) == loaded_settings(*ed),
            s.field == Field::OnStart,
            s.feedback is None,
            !s.dirty_since_load,
    {
        NotificationsState {
            on_recording_start: match ed.get_bool(TABLE, "on_recording_start") {
                Some(b) => b,
                None => false,
            },
            on_recording_stop: match ed.get_bool(TABLE, "on_recording_stop") {
                Some(b) => b,
                None => false,
            },
            on_transcription: match ed.get_bool(TABLE, "on_transcription") {
                Some(b) => b,
                None => true,
            },
            show_engine_icon: match ed.get_bool(TABLE, "show_engine_icon") {
                Some(b) => b,
                None => false,
            },
            field: Field::OnStart,
            feedback: None,
            dirty_since_load: false,
        }
    }

    /// Writes the form into the freshly loaded config, which is returned for
    /// the application to save; when the config could not be loaded, reports
    /// the error and returns nothing.
    pub fn save(&mut self, loaded: Result<ConfigEditor, EditorError>) -> (r: Option<ConfigEditor>)
        ensures
            match loaded {
                Ok(ed) => *final(self) == *old(self) && (r matches Some(after) && settings_saved(
                    ed,
                    after,
                    settings_of(*old(self)),
                )),
                Err(e) => r is None && settings_of(*final(self)) == settings_of(*old(self))
                    && final(self).field == old(self).field
                    && final(self).dirty_since_load == old(self).dirty_since_load
                    && feedback_view(final(self).feedback) == Some(
                    (FeedbackLevel::Failure, "load: "@ + e.message@),
                ),
            },
    {
        match loaded {
            Err(e) => {
                self.feedback = Some((FeedbackLevel::Failure, prefixed("load: ", e.message.as_str())));
                None
            },
            Ok(ed) => {
                let ghost before = ed;
                proof {
                    reveal_strlit("on_recording_start");
                    reveal_strlit("on_recording_stop");
                    reveal_strlit("on_transcription");
                    reveal_strlit("show_engine_icon");
                    assert("on_recording_start"@.len() == 18 && "on_recording_stop"@.len() == 17
                        && "on_transcription"@.len() == 16 && "show_engine_icon"@.len() == 16);
                    assert("on_transcription"@[0] != "show_engine_icon"@[0]);
                }
                let mut ed = ed;
                ed.set_bool(TABLE, "on_recording_start", self.on_recording_start);
                ed.set_bool(TABLE, "on_recording_stop", self.on_recording_stop);
                ed.set_bool(TABLE, "on_transcription", self.on_transcription);
                ed.set_bool(TABLE, "show_engine_icon", self.show_engine_icon);
                proof {
                    assert forall|t: Seq<char>, k: Seq<char>|
                        !saved_keys().contains((t, k)) implies #[trigger] ed.value(t, k)
                        == before.value(t, k) by {
                        if t == TABLE@ {
                            if k == "on_recording_start"@ {
                                assert(saved_keys()[0] == (t, k));
                            } else if k == "on_recording_stop"@ {
                                assert(saved_keys()[1] == (t, k));
                            } else if k == "on_transcription"@ {
                                assert(saved_keys()[2] == (t, k));
                            } else if k == "show_engine_icon"@ {
                                assert(saved_keys()[3] == (t, k));
                            }
                        }
                    }
                }
                Some(ed)
            },
        }
    }

    /// Records the outcome of writing the config: on success the form is
    /// no longer dirty.
    pub fn finish_save(&mut self, outcome: Result<String, EditorError>)
        ensures
            settings_of(*final(self)) == settings_of(*old(self)),
            final(self).field == old(self).field,
            final(self).dirty_since_load == (old(self).dirty_since_load && outcome is Err),
            feedback_view(final(self).feedback) == Some(save_feedback(outcome_view(outcome))),
    {
        let fb = save_feedback_of(&outcome);
        if outcome.is_ok() {
            self.dirty_since_load = false;
        }
        self.feedback = Some(fb);
    }

    /// Reverts the form to the config as loaded again, staying on the same
    /// row; a failed load changes nothing.
    pub fn reset(&mut self, loaded: Result<ConfigEditor, EditorError>)
        ensures
            match loaded {
                Ok(ed) => settings_of(*final(self)) == loaded_settings(ed)
                    && final(self).field == old(self).field
                    && !final(self).dirty_since_load
                    && feedback_view(final(self).feedback) == Some(
                    (FeedbackLevel::Success, "Reverted"@),
                ),
                Err(_) => *final(self) == *old(self),
            },
    {
        if let Ok(ed) = loaded {
            let field = self.field;
            *self = Self::load(&ed);
            self.field = field;
            self.feedback = Some((FeedbackLevel::Success, String::from_str("Reverted")));
        }
    }

    /// Moves `delta` rows through the form, wrapping around.
    pub fn move_field(&mut self, delta: i32)
        requires
            field_index(old(self).field) + delta <= i32::MAX,
        ensures
            final(self).field == field_at((field_index(old(self).field) + delta) % 4),
            settings_of(*final(self)) == settings_of(*old(self)),
            final(self).feedback == old(self).feedback,
            final(self).dirty_since_load == old(self).dirty_since_load,
    {
        let cur = self.field.index();
        let next = cycle_index(cur, delta, 4);
        self.field = Field::at(next);
    }

    /// Flips the flag of the current row. The form becomes dirty.
    pub fn cycle(&mut self)
        ensures
            final(self).field == old(self).field,
            final(self).dirty_since_load,
            final(self).feedback is None,
            settings_of(*final(self)) == cycled(settings_of(*old(self)), old(self).field),
    {
        match self.field {
            Field::OnStart => self.on_recording_start = !self.on_recording_start,
            Field::OnStop => self.on_recording_stop = !self.on_recording_stop,
            Field::OnTranscription => self.on_transcription = !self.on_transcription,
            Field::ShowEngineIcon => self.show_engine_icon = !self.show_engine_icon,
        }
        self.dirty_since_load = true;
        self.feedback = None;
    }

    /// Applies a key: `↑`/`k` and `↓`/`j` move between rows, `←`, `→`, `h`,
    /// `l` and space flip the flag; `s` and `r` are returned as requests to
    /// save and to revert.
    pub fn handle_key(&mut self, key: Key) -> (r: KeyRequest)
        ensures
            r == key_request(key),
            is_up(key) ==> final(self).field == field_at((field_index(old(self).field) + 3) % 4),
            is_down(key) ==> final(self).field == field_at((field_index(old(self).field) + 1) % 4),
            (is_left(key) || is_right(key)) ==> settings_of(*final(self)) == cycled(
                settings_of(*old(self)),
                old(self).field,
            ),
            !is_up(key) && !is_down(key) && !is_left(key) && !is_right(key) ==> *final(self)
                == *old(self),
    {
        match key {
            Key::Up | Key::Char('k') => {
                self.move_field(-1);
                assert((field_index(old(self).field) - 1) % 4 == (field_index(old(self).field) + 3) % 4);
            },
            Key::Down | Key::Char('j') => self.move_field(1),
            Key::Left | Key::Right | Key::Char('h') | Key::Char('l') | Key::Char(' ') => self.cycle(),
            _ => {},
        }
        request_of(key)
    }
}

/// Saving the form and loading the config it wrote gives the settings back.
pub proof fn law_save_then_load(before: ConfigEditor, after: ConfigEditor, s: NotificationSettings)
    requires
        settings_saved(before, after, s),
    ensures
        loaded_settings(after) == s,
{
}

/// Flipping a row twice gives the settings back.
pub proof fn law_cycle_twice(s: NotificationSettings, f: Field)
    ensures
        cycled(cycled(s, f), f) == s,
{
}

/// Each flag of the form is read from its own key of
/// `[output.notification]`: a flag set in the config is the form's value,
/// and an unset one gives the default (off, but on for the transcription
/// notification).
pub proof fn law_each_flag_reads_its_key(ed: ConfigEditor, b: bool)
    ensures
        ed.value("output.notification"@, "on_recording_start"@) == Some(ValueView::Bool(b))
            ==> loaded_settings(ed).on_recording_start == b,
        ed.value("output.notification"@, "on_recording_stop"@) == Some(ValueView::Bool(b))
            ==> loaded_settings(ed).on_recording_stop == b,
        ed.value("output.notification"@, "on_transcription"@) == Some(ValueView::Bool(b))
            ==> loaded_settings(ed).on_transcription == b,
        ed.value("output.notification"@, "show_engine_icon"@) == Some(ValueView::Bool(b))
            ==> loaded_settings(ed).show_engine_icon == b,
        ed.value("output.notification"@, "on_recording_start"@) is None
            ==> !loaded_settings(ed).on_recording_start,
        ed.value("output.notification"@, "on_recording_stop"@) is None
            ==> !loaded_settings(ed).on_recording_stop,
        ed.value("output.notification"@, "on_transcription"@) is None
            ==> loaded_settings(ed).on_transcription,
        ed.value("output.notification"@, "show_engine_icon"@) is None
            ==> !loaded_settings(ed).show_engine_icon,
{
}

/// Saving writes each flag of the form to its own key of
/// `[output.notification]`.
pub proof fn law_each_flag_saved_to_its_key(
    before: ConfigEditor,
    after: ConfigEditor,
    s: NotificationSettings,
)
    requires
        settings_saved(before, after, s),
    ensures
        after.value("output.notification"@, "on_recording_start"@) == Some(
            ValueView::Bool(s.on_recording_start),
        ),
        after.value("output.notification"@, "on_recording_stop"@) == Some(
            ValueView::Bool(s.on_recording_stop),
        ),
        after.value("output.notification"@, "on_transcription"@) == Some(
            ValueView::Bool(s.on_transcription),
        ),
        after.value("output.notification"@, "show_engine_icon"@) == Some(
            ValueView::Bool(s.show_engine_icon),
        ),
{
}

} // verus!
