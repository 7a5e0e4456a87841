//! Audio settings: input device, max duration, feedback sounds, MPRIS pause.
//!
//! The feedback volume is a float: the application holds it beside the
//! form defined here, formats it for the config and steps it. Everything
//! else the section does is here.

use vstd::prelude::*;
use vstd::string::StringExecFns;

use crate::text::{index_from, str_eq};
use crate::tui::common::{
    cycle_index, index_or, is_down, is_left, is_right, is_up, key_request, lemma_index_from,
    outcome_view, position_of, prefixed, request_of, save_feedback, strs_view, wrap, Key,
    KeyRequest,
};
use crate::tui::config_editor::{
    as_bool, as_int, as_str, bool_or, same_except, str_or, ConfigEditor, EditorError, ValueView,
};

verus! {

/// A message shown above the form.
#[derive(Debug)]
pub struct Feedback {
    pub level: FeedbackLevel,
    pub message: String,
}

/// Whether a feedback message reports success or failure.
#[derive(Debug, Clone, Copy, PartialEq, Eq, Structural)]
pub enum FeedbackLevel {
    Success,
    Failure,
}

/// The rows of the form.
#[derive(Debug, Clone, Copy, PartialEq, Eq, Structural)]
pub enum Field {
    Device,
    MaxDuration,
    PauseMedia,
    FeedbackEnabled,
    FeedbackTheme,
    FeedbackVolume,
}

/// The position of a row in the form.
pub open spec fn field_index(f: Field) -> int {
    match f {
        Field::Device => 0,
        Field::MaxDuration => 1,
        Field::PauseMedia => 2,
        Field::FeedbackEnabled => 3,
        Field::FeedbackTheme => 4,
        Field::FeedbackVolume => 5,
    }
}

/// The row at a position of the form.
pub open spec fn field_at(i: int) -> Field {
    if i == 0 {
        Field::Device
    } else if i == 1 {
        Field::MaxDuration
    } else if i == 2 {
        Field::PauseMedia
    } else if i == 3 {
        Field::FeedbackEnabled
    } else if i == 4 {
        Field::FeedbackTheme
    } else {
        Field::FeedbackVolume
    }
}

impl Field {
    /// The position of the row in the form.
    pub fn index(self) -> (r: usize)
        ensures
            r == field_index(self),
    {
        match self {
            Field::Device => 0,
            Field::MaxDuration => 1,
            Field::PauseMedia => 2,
            Field::FeedbackEnabled => 3,
            Field::FeedbackTheme => 4,
            Field::FeedbackVolume => 5,
        }
    }

    /// The row at a position of the form.
    pub fn at(i: usize) -> (f: Field)
        ensures
            f == field_at(i as int),
    {
        if i == 0 {
            Field::Device
        } else if i == 1 {
            Field::MaxDuration
        } else if i == 2 {
            Field::PauseMedia
        } else if i == 3 {
            Field::FeedbackEnabled
        } else if i == 4 {
            Field::FeedbackTheme
        } else {
            Field::FeedbackVolume
        }
    }

    /// The row `delta` rows away, wrapping around.
    pub fn step(self, delta: i32) -> (f: Field)
        ensures
            f == field_at((field_index(self) + delta) % 6),
    {
        Field::at(cycle_index(self.index(), delta, 6))
    }
}

/// Step of the max-duration cycler, in seconds.
pub const DURATION_STEP: u32 = 30;

/// Shortest max duration the form offers, in seconds.
pub const DURATION_MIN: u32 = 30;

/// Longest max duration the form offers, in seconds.
pub const DURATION_MAX: u32 = 1800;

/// The feedback sound themes, in the order the form cycles through them.
pub open spec fn themes_spec() -> Seq<Seq<char>> {
    seq!["default"@, "subtle"@, "mechanical"@]
}

/// The feedback sound themes.
pub fn themes() -> (r: Vec<&'static str>)
    ensures
        strs_view(r@) == themes_spec(),
{
    let r = vec!["default", "subtle", "mechanical"];
    assert(strs_view(r@) =~= themes_spec());
    r
}

/// The theme `delta` steps from `cur`; an unlisted theme counts as the
/// position before the first.
pub open spec fn step_theme_spec(cur: Seq<char>, delta: int) -> Seq<char> {
    themes_spec()[(index_or(themes_spec(), cur, -1) + delta) % 3]
}

/// The theme `delta` steps from `cur`, wrapping around.
pub fn step_theme(cur: &str, delta: i32) -> (r: &'static str)
    requires
        index_or(themes_spec(), cur@, -1) + delta <= i32::MAX,
    ensures
        r@ == step_theme_spec(cur@, delta as int),
{
    let list = themes();
    proof {
        lemma_index_from(themes_spec(), cur@, 0);
    }
    let idx: i64 = match position_of(&list, cur) {
        Some(i) => i as i64,
        None => -1,
    };
    let n = wrap(idx + delta as i64, 3);
    list[n]
}

/// The characters of each string.
pub open spec fn strings_view(v: Seq<String>) -> Seq<Seq<char>> {
    Seq::new(v.len(), |i: int| v[i]@)
}

/// The device `delta` steps from `cur` among `choices` (an unlisted device
/// counts as the position before the first); nothing when there are no
/// choices.
pub open spec fn step_device_spec(choices: Seq<Seq<char>>, cur: Seq<char>, delta: int) -> Option<Seq<char>> {
    if choices.len() == 0 {
        None
    } else {
        Some(choices[(index_or(choices, cur, -1) + delta) % (choices.len() as int)])
    }
}

/// The device `delta` steps from `cur` among `choices`, wrapping around.
pub fn step_device(choices: &Vec<String>, cur: &str, delta: i32) -> (r: Option<String>)
    requires
        choices@.len() <= i32::MAX,
        index_or(strings_view(choices@), cur@, -1) + delta <= i32::MAX,
    ensures
        match r {
            Some(d) => step_device_spec(strings_view(choices@), cur@, delta as int) == Some(d@),
            None => step_device_spec(strings_view(choices@), cur@, delta as int) is None,
        },
{
    if choices.len() == 0 {
        return None;
    }
    let ghost cs = strings_view(choices@);
    proof {
        lemma_index_from(cs, cur@, 0);
    }
    let mut i: usize = 0;
    let mut found: i64 = -1;
    while i < choices.len()
        invariant_except_break
            found == -1,
            index_from(cs, cur@, 0) == index_from(cs, cur@, i as int),
        invariant
            cs == strings_view(choices@),
            i <= choices@.len() <= i32::MAX,
        ensures
            index_or(cs, cur@, -1) == found,
            -1 <= found < choices@.len(),
        decreases choices@.len() - i,
    {
        if str_eq(choices[i].as_str(), cur) {
            found = i as i64;
            break;
        }
        i = i + 1;
    }
    let n = wrap(found + delta as i64, choices.len());
    Some(choices[n].clone())
}

/// The max duration a step of `delta` gives from `cur`: `cur` (as an
/// `i32`) moved by `delta` steps of 30 seconds, kept within 30 to 1800.
pub open spec fn step_duration_spec(cur: u32, delta: int) -> u32 {
    let next = (cur as i32) + delta * 30;
    if next < 30 {
        30
    } else if next > 1800 {
        1800
    } else {
        next as u32
    }
}

/// The max duration after a step of `delta`.
pub fn step_max_duration(cur: u32, delta: i32) -> (r: u32)
    requires
        i32::MIN <= delta * 30 <= i32::MAX,
        i32::MIN <= (cur as i32) + delta * 30 <= i32::MAX,
    ensures
        r == step_duration_spec(cur, delta as int),
{
    let c = cur as i32;
    let next = c + delta * 30;
    if next < 30 {
        30
    } else if next > 1800 {
        1800
    } else {
        next as u32
    }
}

/// The max duration a config sets (`audio.max_duration_secs`, clamped to
/// the range of a `u32`; 120 when unset).
pub open spec fn loaded_duration(ed: ConfigEditor) -> u32 {
    match as_int(ed.value("audio"@, "max_duration_secs"@)) {
        Some(n) => if n < 0 {
            0
        } else if n > u32::MAX {
            u32::MAX
        } else {
            n as u32
        },
        None => 120,
    }
}

/// The max duration a config sets.
pub fn max_duration_of(ed: &ConfigEditor) -> (r: u32)
    ensures
        r == loaded_duration(*ed),
{
    match ed.get_int("audio", "max_duration_secs") {
        Some(n) => if n < 0 {
            0
        } else if n > 4294967295 {
            4294967295
        } else {
            n as u32
        },
        None => 120,
    }
}

/// The device list: `default`, then every device name not already listed
/// (and not `default`), in the order given.
pub open spec fn device_choices_spec(names: Seq<Seq<char>>) -> Seq<Seq<char>>
    decreases names.len(),
{
    if names.len() == 0 {
        seq!["default"@]
    } else {
        let p = device_choices_spec(names.drop_last());
        let n = names.last();
        if n != "default"@ && !p.contains(n) {
            p.push(n)
        } else {
            p
        }
    }
}

/// The device list offered for the names of the input devices found.
pub fn device_choices(names: &Vec<String>) -> (r: Vec<String>)
    ensures
        strings_view(r@) == device_choices_spec(strings_view(names@)),
{
    let mut out: Vec<String> = vec![String::from_str("default")];
    let ghost ns = strings_view(names@);
    assert(strings_view(out@) =~= device_choices_spec(ns.take(0)));
    let mut i: usize = 0;
    while i < names.len()
        invariant
            ns == strings_view(names@),
            i <= names@.len(),
            strings_view(out@) == device_choices_spec(ns.take(i as int)),
        decreases names@.len() - i,
    {
        let name = &names[i];
        assert(ns.take(i + 1).drop_last() =~= ns.take(i as int));
        assert(ns.take(i + 1).last() == name@);
        let mut seen = false;
        let mut j: usize = 0;
        while j < out.len()
            invariant
                j <= out@.len(),
                seen == exists|k: int| 0 <= k < j && out@[k]@ == name@,
            decreases out@.len() - j,
        {
            if str_eq(out[j].as_str(), name.as_str()) {
                seen = true;
            }
            j = j + 1;
        }
        proof {
            let p = strings_view(out@);
            if seen {
                let k = choose|k: int| 0 <= k < out@.len() && out@[k]@ == name@;
                assert(p[k] == name@);
            } else {
                assert(!p.contains(name@)) by {
                    if p.contains(name@) {
                        let k = choose|k: int| 0 <= k < p.len() && p[k] == name@;
                        assert(out@[k]@ == name@);
                    }
                }
            }
        }
        if !str_eq(name.as_str(), "default") && !seen {
            let ghost prev = out@;
            out.push(name.clone());
            assert(strings_view(out@) =~= strings_view(prev).push(name@));
        }
        i = i + 1;
    }
    assert(ns.take(i as int) =~= ns);
    out
}

/// The device shown in the form: the device's own name, whatever the
/// number of devices.
pub fn display_device(device: &str, total: usize) -> (r: String)
    ensures
        r@ == device@,
{
    if total <= 1 {
        String::from_str(device)
    } else {
        String::from_str(device)
    }
}

/// The device list never repeats a name and always starts with `default`.
pub proof fn law_device_choices_distinct(names: Seq<Seq<char>>)
    ensures
        device_choices_spec(names).len() >= 1,
        device_choices_spec(names)[0] == "default"@,
        forall|i: int, j: int|
            0 <= i < j < device_choices_spec(names).len() ==> device_choices_spec(names)[i]
                != device_choices_spec(names)[j],
    decreases names.len(),
{
    if names.len() > 0 {
        law_device_choices_distinct(names.drop_last());
        let p = device_choices_spec(names.drop_last());
        let n = names.last();
        if n != "default"@ && !p.contains(n) {
            assert forall|i: int, j: int|
                0 <= i < j < p.push(n).len() implies p.push(n)[i] != p.push(n)[j] by {
                if j == p.len() {
                    assert(p[i] == p.push(n)[i]);
                    if p[i] == n {
                        assert(p.contains(n));
                    }
                }
            }
        }
    }
}

/// The max duration after any step stays within 30 and 1800 seconds.
pub proof fn law_duration_in_range(cur: u32, delta: int)
    ensures
        30 <= step_duration_spec(cur, delta) <= 1800,
{
}

/// A feedback message by its level and characters.
pub open spec fn feedback_view(f: Option<Feedback>) -> Option<(FeedbackLevel, Seq<char>)> {
    match f {
        Some(fb) => Some((fb.level, fb.message@)),
        None => None,
    }
}

/// The level of a feedback message of the shared kind.
pub open spec fn level_of(l: crate::tui::common::FeedbackLevel) -> FeedbackLevel {
    match l {
        crate::tui::common::FeedbackLevel::Success => FeedbackLevel::Success,
        crate::tui::common::FeedbackLevel::Failure => FeedbackLevel::Failure,
    }
}

/// The Audio section's form but for the feedback volume, which the
/// application keeps beside it.
#[derive(Debug)]
pub struct AudioForm {
    pub device: String,
    pub max_duration_secs: u32,
    pub pause_media: bool,
    pub feedback_enabled: bool,
    pub feedback_theme: String,
    pub field: Field,
    pub feedback: Option<Feedback>,
    pub dirty_since_load: bool,
    /// The devices offered: `default`, then those found on the machine.
    pub device_choices: Vec<String>,
}

/// What the form holds of the config.
pub struct AudioSettings {
    pub device: Seq<char>,
    pub max_duration_secs: u32,
    pub pause_media: bool,
    pub feedback_enabled: bool,
    pub feedback_theme: Seq<char>,
}

/// The settings that a config gives the form.
pub open spec fn loaded_settings(ed: ConfigEditor) -> AudioSettings {
    AudioSettings {
        device: str_or(as_str(ed.value("audio"@, "device"@)), "default"@),
        max_duration_secs: loaded_duration(ed),
        pause_media: bool_or(as_bool(ed.value("audio"@, "pause_media"@)), false),
        feedback_enabled: bool_or(as_bool(ed.value("audio.feedback"@, "enabled"@)), false),
        feedback_theme: str_or(as_str(ed.value("audio.feedback"@, "theme"@)), "default"@),
    }
}

/// The settings in a form.
pub open spec fn settings_of(s: AudioForm) -> AudioSettings {
    AudioSettings {
        device: s.device@,
        max_duration_secs: s.max_duration_secs,
        pause_media: s.pause_media,
        feedback_enabled: s.feedback_enabled,
        feedback_theme: s.feedback_theme@,
    }
}

/// The keys the section writes.
pub open spec fn saved_keys() -> Seq<(Seq<char>, Seq<char>)> {
    seq![
        ("audio"@, "device"@),
        ("audio"@, "max_duration_secs"@),
        ("audio"@, "pause_media"@),
        ("audio.feedback"@, "enabled"@),
        ("audio.feedback"@, "theme"@),
        ("audio.feedback"@, "volume"@),
    ]
}

/// `after` is `before` with the settings and the volume's text written to
/// it.
pub open spec fn settings_saved(
    before: ConfigEditor,
    after: ConfigEditor,
    s: AudioSettings,
    volume: Seq<char>,
) -> bool {
    &&& after.value("audio"@, "device"@) == Some(ValueView::Str(s.device))
    &&& after.value("audio"@, "max_duration_secs"@) == Some(
        ValueView::Int(s.max_duration_secs as i64),
    )
    &&& after.value("audio"@, "pause_media"@) == Some(ValueView::Bool(s.pause_media))
    &&& after.value("audio.feedback"@, "enabled"@) == Some(ValueView::Bool(s.feedback_enabled))
    &&& after.value("audio.feedback"@, "theme"@) == Some(ValueView::Str(s.feedback_theme))
    &&& after.value("audio.feedback"@, "volume"@) == Some(ValueView::Str(volume))
    &&& same_except(before, after, saved_keys())
}

/// The settings after the value of row `f` is changed by `delta`, with
/// `choices` the devices offered (the volume row changes only the volume,
/// which the application holds).
pub open spec fn cycled(s: AudioSettings, choices: Seq<Seq<char>>, f: Field, delta: int) -> AudioSettings {
    match f {
        Field::Device => match step_device_spec(choices, s.device, delta) {
            Some(d) => AudioSettings { device: d, ..s },
            None => s,
        },
        Field::MaxDuration => AudioSettings {
            max_duration_secs: step_duration_spec(s.max_duration_secs, delta),
            ..s
        },
        Field::PauseMedia => AudioSettings { pause_media: !s.pause_media, ..s },
        Field::FeedbackEnabled => AudioSettings { feedback_enabled: !s.feedback_enabled, ..s },
        Field::FeedbackTheme => AudioSettings {
            feedback_theme: step_theme_spec(s.feedback_theme, delta),
            ..s
        },
        Field::FeedbackVolume => s,
    }
}

/// The value of the current row can be changed by `delta` without an
/// arithmetic overflow.
pub open spec fn cycle_in_range(s: AudioForm, delta: int) -> bool {
    &&& s.field == Field::Device ==> s.device_choices@.len() <= i32::MAX && index_or(
        strings_view(s.device_choices@),
        s.device@,
        -1,
    ) + delta <= i32::MAX
    &&& s.field == Field::MaxDuration ==> i32::MIN <= delta * 30 <= i32::MAX && i32::MIN <= (
    s.max_duration_secs as i32) + delta * 30 <= i32::MAX
    &&& s.field == Field::FeedbackTheme ==> index_or(themes_spec(), s.feedback_theme@, -1)
        + delta <= i32::MAX
}

impl AudioForm {
    /// The form as the config sets it, on its first row, offering the
    /// devices `device_choices`.
    pub fn load(ed: &ConfigEditor, device_choices: Vec<String>) -> (s: Self)
        ensures
            settings_of(s) == loaded_settings(*ed),
            s.device_choices == device_choices,
            s.field == Field::Device,
            s.feedback is None,
            !s.dirty_since_load,
    {
        AudioForm {
            device: match ed.get_string("audio", "device") {
                Some(d) => d,
                None => String::from_str("default"),
            },
            max_duration_secs: max_duration_of(ed),
            pause_media: match ed.get_bool("audio", "pause_media") {
                Some(b) => b,
                None => false,
            },
            feedback_enabled: match ed.get_bool("audio.feedback", "enabled") {
                Some(b) => b,
                None => false,
            },
            feedback_theme: match ed.get_string("audio.feedback", "theme") {
                Some(t) => t,
                None => String::from_str("default"),
            },
            field: Field::Device,
            feedback: None,
            dirty_since_load: false,
            device_choices,
        }
    }

    /// Writes the form, with the volume's text, into the freshly loaded
    /// config, which is returned for the application to save; when the
    /// config could not be loaded, reports the error and returns nothing.
    pub fn save(&mut self, loaded: Result<ConfigEditor, EditorError>, volume: &str) -> (r: Option<
        ConfigEditor,
    >)
        ensures
            match loaded {
                Ok(ed) => *final(self) == *old(self) && (r matches Some(after) && settings_saved(
                    ed,
                    after,
                    settings_of(*old(self)),
                    volume@,
                )),
                Err(e) => r is None && settings_of(*final(self)) == settings_of(*old(self))
                    && final(self).field == old(self).field
                    && final(self).device_choices == old(self).device_choices
                    && final(self).dirty_since_load == old(self).dirty_since_load
                    && feedback_view(final(self).feedback) == Some(
                    (FeedbackLevel::Failure, "load: "@ + e.message@),
                ),
            },
    {
        match loaded {
            Err(e) => {
                self.feedback = Some(
                    Feedback {
                        level: FeedbackLevel::Failure,
                        message: prefixed("load: ", e.message.as_str()),
                    },
                );
                None
            },
            Ok(ed) => {
                let ghost before = ed;
                proof {
                    reveal_strlit("audio");
                    reveal_strlit("audio.feedback");
                    reveal_strlit("device");
                    reveal_strlit("max_duration_secs");
                    reveal_strlit("pause_media");
                    reveal_strlit("enabled");
                    reveal_strlit("theme");
                    reveal_strlit("volume");
                    assert("audio"@.len() == 5 && "audio.feedback"@.len() == 14);
                    assert("device"@.len() == 6 && "max_duration_secs"@.len() == 17
                        && "pause_media"@.len() == 11);
                    assert("enabled"@.len() == 7 && "theme"@.len() == 5 && "volume"@.len() == 6);
                }
                let mut ed = ed;
                ed.set_string("audio", "device", self.device.as_str());
                ed.set_int("audio", "max_duration_secs", self.max_duration_secs as i64);
                ed.set_bool("audio", "pause_media", self.pause_media);
                ed.set_bool("audio.feedback", "enabled", self.feedback_enabled);
                ed.set_string("audio.feedback", "theme", self.feedback_theme.as_str());
                ed.set_string("audio.feedback", "volume", volume);
                proof {
                    assert forall|t: Seq<char>, k: Seq<char>|
                        !saved_keys().contains((t, k)) implies #[trigger] ed.value(t, k)
                        == before.value(t, k) by {
                        if t == "audio"@ && k == "device"@ {
                            assert(saved_keys()[0] == (t, k));
                        } else if t == "audio"@ && k == "max_duration_secs"@ {
                            assert(saved_keys()[1] == (t, k));
                        } else if t == "audio"@ && k == "pause_media"@ {
                            assert(saved_keys()[2] == (t, k));
                        } else if t == "audio.feedback"@ && k == "enabled"@ {
                            assert(saved_keys()[3] == (t, k));
                        } else if t == "audio.feedback"@ && k == "theme"@ {
                            assert(saved_keys()[4] == (t, k));
                        } else if t == "audio.feedback"@ && k == "volume"@ {
                            assert(saved_keys()[5] == (t, k));
                        }
                    }
                }
                Some(ed)
            },
        }
    }

    /// Records the outcome of writing the config: on success the form is
    /// no longer dirty.
    pub fn finish_save(&mut self, outcome: Result<String, EditorError>)
        ensures
            settings_of(*final(self)) == settings_of(*old(self)),
            final(self).field == old(self).field,
            final(self).device_choices == old(self).device_choices,
            final(self).dirty_since_load == (old(self).dirty_since_load && outcome is Err),
            feedback_view(final(self).feedback) == Some(
                (
                    level_of(save_feedback(outcome_view(outcome)).0),
                    save_feedback(outcome_view(outcome)).1,
                ),
            ),
    {
        match outcome {
            Ok(path) => {
                self.dirty_since_load = false;
                self.feedback = Some(
                    Feedback {
                        level: FeedbackLevel::Success,
                        message: prefixed("Saved to ", path.as_str()),
                    },
                );
            },
            Err(e) => {
                self.feedback = Some(
                    Feedback {
                        level: FeedbackLevel::Failure,
                        message: prefixed("save: ", e.message.as_str()),
                    },
                );
            },
        }
    }

    /// Reverts the form to the config as loaded again, staying on the same
    /// row and keeping the device list; a failed load is reported and
    /// changes nothing else.
    pub fn reset(&mut self, loaded: Result<ConfigEditor, EditorError>)
        ensures
            final(self).field == old(self).field,
            final(self).device_choices == old(self).device_choices,
            match loaded {
                Ok(ed) => settings_of(*final(self)) == loaded_settings(ed)
                    && !final(self).dirty_since_load
                    && feedback_view(final(self).feedback) == Some(
                    (FeedbackLevel::Success, "Reverted unsaved changes"@),
                ),
                Err(e) => settings_of(*final(self)) == settings_of(*old(self))
                    && final(self).dirty_since_load == old(self).dirty_since_load
                    && feedback_view(final(self).feedback) == Some(
                    (FeedbackLevel::Failure, "reload: "@ + e.message@),
                ),
            },
    {
        match loaded {
            Ok(ed) => {
                let field = self.field;
                let mut cached: Vec<String> = Vec::new();
                core::mem::swap(&mut cached, &mut self.device_choices);
                *self = Self::load(&ed, cached);
                self.field = field;
                self.feedback = Some(
                    Feedback {
                        level: FeedbackLevel::Success,
                        message: String::from_str("Reverted unsaved changes"),
                    },
                );
            },
            Err(e) => {
                self.feedback = Some(
                    Feedback {
                        level: FeedbackLevel::Failure,
                        message: prefixed("reload: ", e.message.as_str()),
                    },
                );
            },
        }
    }

    /// Moves `delta` rows through the form, wrapping around.
    pub fn move_field(&mut self, delta: i32)
        ensures
            final(self).field == field_at((field_index(old(self).field) + delta) % 6),
            settings_of(*final(self)) == settings_of(*old(self)),
            final(self).device_choices == old(self).device_choices,
            final(self).feedback == old(self).feedback,
            final(self).dirty_since_load == old(self).dirty_since_load,
    {
        self.field = self.field.step(delta);
    }

    /// Changes the value of the current row by `delta`: the device and the
    /// theme step through their lists, the max duration by 30 seconds within
    /// 30 to 1800, a flag is flipped; on the volume row the application
    /// steps the volume. The form becomes dirty.
    pub fn cycle(&mut self, delta: i32)
        requires
            cycle_in_range(*old(self), delta as int),
        ensures
            final(self).field == old(self).field,
            final(self).device_choices == old(self).device_choices,
            final(self).dirty_since_load,
            final(self).feedback is None,
            settings_of(*final(self)) == cycled(
                settings_of(*old(self)),
                strings_view(old(self).device_choices@),
                old(self).field,
                delta as int,
            ),
    {
        match self.field {
            Field::Device => {
                if let Some(d) = step_device(&self.device_choices, self.device.as_str(), delta) {
                    self.device = d;
                }
            },
            Field::MaxDuration => {
                self.max_duration_secs = step_max_duration(self.max_duration_secs, delta);
            },
            Field::PauseMedia => self.pause_media = !self.pause_media,
            Field::FeedbackEnabled => self.feedback_enabled = !self.feedback_enabled,
            Field::FeedbackTheme => {
                let next = step_theme(self.feedback_theme.as_str(), delta);
                self.feedback_theme = String::from_str(next);
            },
            Field::FeedbackVolume => {},
        }
        self.dirty_since_load = true;
        self.feedback = None;
    }

    /// Applies a key: `↑`/`k` and `↓`/`j` move between rows, `←`/`h` and
    /// `→`/`l`/space change the value; `s` and `r` are returned as requests
    /// to save and to revert.
    pub fn handle_key(&mut self, key: Key) -> (r: KeyRequest)
        requires
            is_left(key) ==> cycle_in_range(*old(self), -1),
            is_right(key) ==> cycle_in_range(*old(self), 1),
        ensures
            r == key_request(key),
            final(self).device_choices == old(self).device_choices,
            is_up(key) ==> final(self).field == field_at((field_index(old(self).field) + 5) % 6),
            is_down(key) ==> final(self).field == field_at((field_index(old(self).field) + 1) % 6),
            is_left(key) ==> final(self).field == old(self).field && settings_of(*final(self))
                == cycled(
                settings_of(*old(self)),
                strings_view(old(self).device_choices@),
                old(self).field,
                -1,
            ) && final(self).dirty_since_load,
            is_right(key) ==> final(self).field == old(self).field && settings_of(*final(self))
                == cycled(
                settings_of(*old(self)),
                strings_view(old(self).device_choices@),
                old(self).field,
                1,
            ) && final(self).dirty_since_load,
            !is_up(key) && !is_down(key) && !is_left(key) && !is_right(key) ==> settings_of(
                *final(self),
            ) == settings_of(*old(self)) && final(self).field == old(self).field
                && final(self).dirty_since_load == old(self).dirty_since_load
                && final(self).feedback == old(self).feedback,
    {
        match key {
            Key::Up | Key::Char('k') => {
                self.move_field(-1);
                assert((field_index(old(self).field) - 1) % 6 == (field_index(old(self).field) + 5) % 6);
            },
            Key::Down | Key::Char('j') => self.move_field(1),
            Key::Left | Key::Char('h') => self.cycle(-1),
            Key::Right | Key::Char('l') | Key::Char(' ') => self.cycle(1),
            _ => {},
        }
        request_of(key)
    }
}

/// Saving the form and loading the config it wrote gives the settings, and
/// the volume's text, back.
pub proof fn law_save_then_load(
    before: ConfigEditor,
    after: ConfigEditor,
    s: AudioSettings,
    volume: Seq<char>,
)
    requires
        settings_saved(before, after, s, volume),
    ensures
        loaded_settings(after) == s,
        as_str(after.value("audio.feedback"@, "volume"@)) == Some(volume),
{
}

} // verus!
