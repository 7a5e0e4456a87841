//! Advanced settings: less-common knobs the TUI surfaces in one place.

use vstd::prelude::*;
use vstd::string::StringExecFns;

use crate::tui::common::{
    cycle_index, feedback_view, is_down, is_left, is_right, is_up, key_request, outcome_view,
    prefixed, request_of, save_feedback, save_feedback_of, FeedbackLevel, Key, KeyRequest,
};
use crate::tui::config_editor::{
    as_bool, as_int, bool_or, same_except, ConfigEditor, EditorError, ValueView,
};

verus! {

/// The Advanced section's form.
#[derive(Debug)]
pub struct AdvancedState {
    pub gpu_isolation: bool,
    pub on_demand_loading: bool,
    pub flash_attention: bool,
    pub eager_processing: bool,
    pub gpu_device: Option<i64>,
    pub field: Field,
    pub feedback: Option<(FeedbackLevel, String)>,
    pub dirty_since_load: bool,
}

/// The rows of the form.
#[derive(Debug, Clone, Copy, PartialEq, Eq, Structural)]
pub enum Field {
    GpuIsolation,
    OnDemand,
    FlashAttention,
    Eager,
    GpuDevice,
}

/// The number of rows.
pub const FIELD_COUNT: usize = 5;

/// The position of a row in the form.
pub open spec fn field_index(f: Field) -> int {
    match f {
        Field::GpuIsolation => 0,
        Field::OnDemand => 1,
        Field::FlashAttention => 2,
        Field::Eager => 3,
        Field::GpuDevice => 4,
    }
}

/// The row at a position of the form.
pub open spec fn field_at(i: int) -> Field {
    if i == 0 {
        Field::GpuIsolation
    } else if i == 1 {
        Field::OnDemand
    } else if i == 2 {
        Field::FlashAttention
    } else if i == 3 {
        Field::Eager
    } else {
        Field::GpuDevice
    }
}

impl Field {
    /// The position of the row in the form.
    pub fn index(self) -> (r: usize)
        ensures
            r == field_index(self),
    {
        match self {
            Field::GpuIsolation => 0,
            Field::OnDemand => 1,
            Field::FlashAttention => 2,
            Field::Eager => 3,
            Field::GpuDevice => 4,
        }
    }

    /// The row at a position of the form.
    pub fn at(i: usize) -> (f: Field)
        ensures
            f == field_at(i as int),
    {
        if i == 0 {
            Field::GpuIsolation
        } else if i == 1 {
            Field::OnDemand
        } else if i == 2 {
            Field::FlashAttention
        } else if i == 3 {
            Field::Eager
        } else {
            Field::GpuDevice
        }
    }
}

/// What the form holds of the config (all in table `whisper`).
pub struct AdvancedSettings {
    pub gpu_isolation: bool,
    pub on_demand_loading: bool,
    pub flash_attention: bool,
    pub eager_processing: bool,
    pub gpu_device: Option<i64>,
}

/// The settings that a config gives the form.
pub open spec fn loaded_settings(ed: ConfigEditor) -> AdvancedSettings {
    AdvancedSettings {
        gpu_isolation: bool_or(as_bool(ed.value("whisper"@, "gpu_isolation"@)), false),
        on_demand_loading: bool_or(as_bool(ed.value("whisper"@, "on_demand_loading"@)), false),
        flash_attention: bool_or(as_bool(ed.value("whisper"@, "flash_attention"@)), false),
        eager_processing: bool_or(as_bool(ed.value("whisper"@, "eager_processing"@)), false),
        gpu_device: as_int(ed.value("whisper"@, "gpu_device"@)),
    }
}

/// The settings in a form.
pub open spec fn settings_of(s: AdvancedState) -> AdvancedSettings {
    AdvancedSettings {
        gpu_isolation: s.gpu_isolation,
        on_demand_loading: s.on_demand_loading,
        flash_attention: s.flash_attention,
        eager_processing: s.eager_processing,
        gpu_device: s.gpu_device,
    }
}

/// The keys the form writes.
pub open spec fn saved_keys() -> Seq<(Seq<char>, Seq<char>)> {
    seq![
        ("whisper"@, "gpu_isolation"@),
        ("whisper"@, "on_demand_loading"@),
        ("whisper"@, "flash_attention"@),
        ("whisper"@, "eager_processing"@),
        ("whisper"@, "gpu_device"@),
    ]
}

/// `after` is `before` with the settings written to it: the four flags,
/// and the GPU device when it is a non-negative index (else it is removed).
pub open spec fn settings_saved(before: ConfigEditor, after: ConfigEditor, s: AdvancedSettings) -> bool {
    &&& after.value("whisper"@, "gpu_isolation"@) == Some(ValueView::Bool(s.gpu_isolation))
    &&& after.value("whisper"@, "on_demand_loading"@) == Some(ValueView::Bool(s.on_demand_loading))
    &&& after.value("whisper"@, "flash_attention"@) == Some(ValueView::Bool(s.flash_attention))
    &&& after.value("whisper"@, "eager_processing"@) == Some(ValueView::Bool(s.eager_processing))
    &&& after.value("whisper"@, "gpu_device"@) == match s.gpu_device {
        Some(n) => if n >= 0 {
            Some(ValueView::Int(n))
        } else {
            None
        },
        None => None,
    }
    &&& same_except(before, after, saved_keys())
}

/// The GPU device after a step of `delta` from `cur`: `None` (auto) below
/// zero, else capped at 7.
pub open spec fn step_gpu_device(cur: Option<i64>, delta: i32) -> Option<i64> {
    let c = match cur {
        Some(n) => n as int,
        None => -1,
    };
    let next = c + delta;
    if next < 0 {
        None
    } else if next > 7 {
        Some(7)
    } else {
        Some(next as i64)
    }
}

/// The settings after the value of row `f` is changed by `delta`: a flag
/// is flipped, the GPU device steps.
pub open spec fn cycled(s: AdvancedSettings, f: Field, delta: i32) -> AdvancedSettings {
    match f {
        Field::GpuIsolation => AdvancedSettings { gpu_isolation: !s.gpu_isolation, ..s },
        Field::OnDemand => AdvancedSettings { on_demand_loading: !s.on_demand_loading, ..s },
        Field::FlashAttention => AdvancedSettings { flash_attention: !s.flash_attention, ..s },
        Field::Eager => AdvancedSettings { eager_processing: !s.eager_processing, ..s },
        Field::GpuDevice => AdvancedSettings { gpu_device: step_gpu_device(s.gpu_device, delta), ..s },
    }
}

impl AdvancedState {
    /// The form as the config sets it, on its first row.
    pub fn load(ed: &ConfigEditor) -> (s: Self)
        ensures
            settings_of(s) == loaded_settings(*ed),
            s.field == Field::GpuIsolation,
            s.feedback is None,
            !s.dirty_since_load,
    {
        AdvancedState {
            gpu_isolation: match ed.get_bool("whisper", "gpu_isolation") {
                Some(b) => b,
                None => false,
            },
            on_demand_loading: match ed.get_bool("whisper", "on_demand_loading") {
                Some(b) => b,
                None => false,
            },
            flash_attention: match ed.get_bool("whisper", "flash_attention") {
                Some(b) => b,
                None => false,
            },
            eager_processing: match ed.get_bool("whisper", "eager_processing") {
                Some(b) => b,
                None => false,
            },
            gpu_device: ed.get_int("whisper", "gpu_device"),
            field: Field::GpuIsolation,
            feedback: None,
            dirty_since_load: false,
        }
    }

    /// Writes the form into the freshly loaded config, which is returned for
    /// the application to save; when the config could not be loaded, reports
    /// the error and returns nothing.
    pub fn save(&mut self, loaded: Result<ConfigEditor, EditorError>) -> (r: Option<ConfigEditor>)
        ensures
            match loaded {
                Ok(ed) => *final(self) == *old(self) && (r matches Some(after) && settings_saved(
                    ed,
                    after,
                    settings_of(*old(self)),
                )),
                Err(e) => r is None && settings_of(*final(self)) == settings_of(*old(self))
                    && final(self).field == old(self).field
                    && final(self).dirty_since_load == old(self).dirty_since_load
                    && feedback_view(final(self).feedback) == Some(
                    (FeedbackLevel::Failure, "load: "@ + e.message@),
                ),
            },
    {
        match loaded {
            Err(e) => {
                self.feedback = Some((FeedbackLevel::Failure, prefixed("load: ", e.message.as_str())));
                None
            },
            Ok(ed) => {
                let ghost before = ed;
                proof {
                    reveal_strlit("gpu_isolation");
                    reveal_strlit("on_demand_loading");
                    reveal_strlit("flash_attention");
                    reveal_strlit("eager_processing");
                    reveal_strlit("gpu_device");
                    assert("gpu_isolation"@.len() == 13 && "on_demand_loading"@.len() == 17
                        && "flash_attention"@.len() == 15 && "eager_processing"@.len() == 16
                        && "gpu_device"@.len() == 10);
                }
                let mut ed = ed;
                ed.set_bool("whisper", "gpu_isolation", self.gpu_isolation);
                ed.set_bool("whisper", "on_demand_loading", self.on_demand_loading);
                ed.set_bool("whisper", "flash_attention", self.flash_attention);
                ed.set_bool("whisper", "eager_processing", self.eager_processing);
                match self.gpu_device {
                    Some(n) => {
                        if n >= 0 {
                            ed.set_int("whisper", "gpu_device", n);
                        } else {
                            ed.unset("whisper", "gpu_device");
                        }
                    },
                    None => ed.unset("whisper", "gpu_device"),
                }
                proof {
                    assert forall|t: Seq<char>, k: Seq<char>|
                        !saved_keys().contains((t, k)) implies #[trigger] ed.value(t, k)
                        == before.value(t, k) by {
                        if t == "whisper"@ {
                            if k == "gpu_isolation"@ {
                                assert(saved_keys()[0] == (t, k));
                            } else if k == "on_demand_loading"@ {
                                assert(saved_keys()[1] == (t, k));
                            } else if k == "flash_attention"@ {
                                assert(saved_keys()[2] == (t, k));
                            } else if k == "eager_processing"@ {
                                assert(saved_keys()[3] == (t, k));
                            } else if k == "gpu_device"@ {
                                assert(saved_keys()[4] == (t, k));
                            }
                        }
                    }
                }
                Some(ed)
            },
        }
    }

    /// Records the outcome of writing the config: on success the form is
    /// no longer dirty.
    pub fn finish_save(&mut self, outcome: Result<String, EditorError>)
        ensures
            settings_of(*final(self)) == settings_of(*old(self)),
            final(self).field == old(self).field,
            final(self).dirty_since_load == (old(self).dirty_since_load && outcome is Err),
            feedback_view(final(self).feedback) == Some(save_feedback(outcome_view(outcome))),
    {
        let fb = save_feedback_of(&outcome);
        if outcome.is_ok() {
            self.dirty_since_load = false;
        }
        self.feedback = Some(fb);
    }

    /// Reverts the form to the config as loaded again, staying on the same
    /// row; a failed load changes nothing.
    pub fn reset(&mut self, loaded: Result<ConfigEditor, EditorError>)
        ensures
            match loaded {
                Ok(ed) => settings_of(*final(self)) == loaded_settings(ed)
                    && final(self).field == old(self).field
                    && !final(self).dirty_since_load
                    && feedback_view(final(self).feedback) == Some(
                    (FeedbackLevel::Success, "Reverted"@),
                ),
                Err(_) => *final(self) == *old(self),
            },
    {
        if let Ok(ed) = loaded {
            let field = self.field;
            *self = Self::load(&ed);
            self.field = field;
            self.feedback = Some((FeedbackLevel::Success, String::from_str("Reverted")));
        }
    }

    /// Moves `delta` rows through the form, wrapping around.
    pub fn move_field(&mut self, delta: i32)
        requires
            field_index(old(self).field) + delta <= i32::MAX,
        ensures
            final(self).field == field_at((field_index(old(self).field) + delta) % 5),
            settings_of(*final(self)) == settings_of(*old(self)),
            final(self).feedback == old(self).feedback,
            final(self).dirty_since_load == old(self).dirty_since_load,
    {
        let cur = self.field.index();
        let next = cycle_index(cur, delta, FIELD_COUNT);
        self.field = Field::at(next);
    }

    /// Changes the value of the current row: a flag is flipped, the GPU
    /// device steps by `delta`. The form becomes dirty.
    pub fn cycle(&mut self, delta: i32)
        requires
            old(self).field == Field::GpuDevice ==> match old(self).gpu_device {
                Some(n) => i64::MIN <= n + delta <= i64::MAX,
                None => true,
            },
        ensures
            final(self).field == old(self).field,
            final(self).dirty_since_load,
            final(self).feedback is None,
            settings_of(*final(self)) == cycled(settings_of(*old(self)), old(self).field, delta),
    {
        match self.field {
            Field::GpuIsolation => self.gpu_isolation = !self.gpu_isolation,
            Field::OnDemand => self.on_demand_loading = !self.on_demand_loading,
            Field::FlashAttention => self.flash_attention = !self.flash_attention,
            Field::Eager => self.eager_processing = !self.eager_processing,
            Field::GpuDevice => {
                let cur: i64 = match self.gpu_device {
                    Some(n) => n,
                    None => -1,
                };
                let next: i64 = cur + delta as i64;
                self.gpu_device = if next < 0 {
                    None
                } else if next > 7 {
                    Some(7)
                } else {
                    Some(next)
                };
            },
        }
        self.dirty_since_load = true;
        self.feedback = None;
    }

    /// Applies a key: `↑`/`k` and `↓`/`j` move between rows, `←`/`h` and
    /// `→`/`l`/space change the value; `s` and `r` are returned as requests
    /// to save and to revert.
    pub fn handle_key(&mut self, key: Key) -> (r: KeyRequest)
        requires
            old(self).field == Field::GpuDevice && is_right(key) ==> match old(self).gpu_device {
                Some(n) => n < i64::MAX,
                None => true,
            },
            old(self).field == Field::GpuDevice && is_left(key) ==> match old(self).gpu_device {
                Some(n) => n > i64::MIN,
                None => true,
            },
        ensures
            r == key_request(key),
            is_up(key) ==> final(self).field == field_at((field_index(old(self).field) + 4) % 5),
            is_down(key) ==> final(self).field == field_at((field_index(old(self).field) + 1) % 5),
            is_left(key) ==> settings_of(*final(self)) == cycled(
                settings_of(*old(self)),
                old(self).field,
                -1i32,
            ) && final(self).dirty_since_load,
            is_right(key) ==> settings_of(*final(self)) == cycled(
                settings_of(*old(self)),
                old(self).field,
                1i32,
            ) && final(self).dirty_since_load,
            !is_up(key) && !is_down(key) && !is_left(key) && !is_right(key) ==> *final(self)
                == *old(self),
    {
        match key {
            Key::Up | Key::Char('k') => {
                self.move_field(-1);
                assert((field_index(old(self).field) - 1) % 5 == (field_index(old(self).field) + 4) % 5);
            },
            Key::Down | Key::Char('j') => self.move_field(1),
            Key::Left | Key::Char('h') => self.cycle(-1),
            Key::Right | Key::Char('l') | Key::Char(' ') => self.cycle(1),
            _ => {},
        }
        request_of(key)
    }
}

/// Saving the form and loading the config it wrote gives the form's
/// settings back, when its GPU device is a non-negative index or auto (a
/// negative index is not written, so it reads back as auto).
pub proof fn law_save_then_load(before: ConfigEditor, after: ConfigEditor, s: AdvancedSettings)
    requires
        settings_saved(before, after, s),
        s.gpu_device matches Some(n) ==> n >= 0,
    ensures
        loaded_settings(after) == s,
{
}

/// Stepping the GPU device never gives a negative index or one above 7.
pub proof fn law_gpu_device_in_range(cur: Option<i64>, delta: i32)
    ensures
        step_gpu_device(cur, delta) matches Some(n) ==> 0 <= n <= 7,
{
}

/// Moving down and then up returns to the same row.
pub proof fn law_move_down_up(f: Field)
    ensures
        field_at((field_index(field_at((field_index(f) + 1) % 5)) + 4) % 5) == f,
{
}

} // verus!
