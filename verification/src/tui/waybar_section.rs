//! Waybar status integration: icon theme.

use vstd::prelude::*;
use vstd::string::StringExecFns;

use crate::text::index_from;
use crate::tui::common::{
    feedback_view, index_or, is_left, is_right, key_request, lemma_index_from, outcome_view, prefixed,
    request_of, save_feedback, save_feedback_of, step_choice, step_choice_from_first, strs_view,
    FeedbackLevel, Key, KeyRequest,
};
use crate::tui::config_editor::{as_str, same_except, str_or, ConfigEditor, EditorError, ValueView};

verus! {

/// The Waybar section's form.
#[derive(Debug)]
pub struct WaybarState {
    pub icon_theme: String,
    pub feedback: Option<(FeedbackLevel, String)>,
    pub dirty_since_load: bool,
}

/// The icon themes, in the order the form cycles through them.
pub open spec fn themes_spec() -> Seq<Seq<char>> {
    seq![
        "emoji"@,
        "nerd-font"@,
        "material"@,
        "phosphor"@,
        "codicons"@,
        "omarchy"@,
        "minimal"@,
        "dots"@,
        "arrows"@,
        "text"@,
    ]
}

/// The icon themes.
pub fn themes() -> (r: Vec<&'static str>)
    ensures
        strs_view(r@) == themes_spec(),
{
    let r = vec![
        "emoji",
        "nerd-font",
        "material",
        "phosphor",
        "codicons",
        "omarchy",
        "minimal",
        "dots",
        "arrows",
        "text",
    ];
    assert(strs_view(r@) =~= themes_spec());
    r
}

/// The icon theme a config selects (`status.icon_theme`, `emoji` when unset).
pub open spec fn loaded_theme(ed: ConfigEditor) -> Seq<char> {
    str_or(as_str(ed.value("status"@, "icon_theme"@)), "emoji"@)
}

/// `after` is `before` with the theme written to it.
pub open spec fn theme_saved(before: ConfigEditor, after: ConfigEditor, theme: Seq<char>) -> bool {
    &&& after.value("status"@, "icon_theme"@) == Some(ValueView::Str(theme))
    &&& same_except(before, after, seq![("status"@, "icon_theme"@)])
}

impl WaybarState {
    /// The form as the config sets it.
    pub fn load(ed: &ConfigEditor) -> (s: Self)
        ensures
            s.icon_theme@ == loaded_theme(*ed),
            s.feedback is None,
            !s.dirty_since_load,
    {
        let icon_theme = match ed.get_string("status", "icon_theme") {
            Some(t) => t,
            None => String::from_str("emoji"),
        };
        WaybarState { icon_theme, feedback: None, dirty_since_load: false }
    }

    /// Writes the form into the freshly loaded config, which is returned for
    /// the application to save; when the config could not be loaded, reports
    /// the error and returns nothing.
    pub fn save(&mut self, loaded: Result<ConfigEditor, EditorError>) -> (r: Option<ConfigEditor>)
        ensures
            match loaded {
                Ok(ed) => *final(self) == *old(self) && (r matches Some(after) && theme_saved(
                    ed,
                    after,
                    old(self).icon_theme@,
                )),
                Err(e) => r is None && final(self).icon_theme == old(self).icon_theme
                    && final(self).dirty_since_load == old(self).dirty_since_load
                    && feedback_view(final(self).feedback) == Some(
                    (FeedbackLevel::Failure, "load: "@ + e.message@),
                ),
            },
    {
        match loaded {
            Err(e) => {
                self.feedback = Some((FeedbackLevel::Failure, prefixed("load: ", e.message.as_str())));
                None
            },
            Ok(ed) => {
                let mut ed = ed;
                ed.set_string("status", "icon_theme", self.icon_theme.as_str());
                proof {
                    assert forall|t: Seq<char>, k: Seq<char>|
                        !seq![("status"@, "icon_theme"@)].contains((t, k)) implies #[trigger] ed.value(
                        t,
                        k,
                    ) == loaded->Ok_0.value(t, k) by {
                        if t == "status"@ && k == "icon_theme"@ {
                            assert(seq![("status"@, "icon_theme"@)][0] == (t, k));
                        }
                    }
                }
                Some(ed)
            },
        }
    }

    /// Records the outcome of writing the config: on success the form is
    /// no longer dirty.
    pub fn finish_save(&mut self, outcome: Result<String, EditorError>)
        ensures
            final(self).icon_theme == old(self).icon_theme,
            final(self).dirty_since_load == (old(self).dirty_since_load && outcome is Err),
            feedback_view(final(self).feedback) == Some(save_feedback(outcome_view(outcome))),
    {
        let fb = save_feedback_of(&outcome);
        if outcome.is_ok() {
            self.dirty_since_load = false;
        }
        self.feedback = Some(fb);
    }

    /// Reverts the form to the config as loaded again; a failed load
    /// changes nothing.
    pub fn reset(&mut self, loaded: Result<ConfigEditor, EditorError>)
        ensures
            match loaded {
                Ok(ed) => final(self).icon_theme@ == loaded_theme(ed)
                    && !final(self).dirty_since_load
                    && feedback_view(final(self).feedback) == Some(
                    (FeedbackLevel::Success, "Reverted"@),
                ),
                Err(_) => *final(self) == *old(self),
            },
    {
        if let Ok(ed) = loaded {
            let fresh = Self::load(&ed);
            *self = fresh;
            self.feedback = Some((FeedbackLevel::Success, String::from_str("Reverted")));
        }
    }

    /// Steps the icon theme `delta` places through the list (from the first
    /// when the current one is not listed).
    pub fn cycle(&mut self, delta: i32)
        requires
            index_or(themes_spec(), old(self).icon_theme@, 0) + delta <= i32::MAX,
        ensures
            final(self).icon_theme@ == step_choice(themes_spec(), old(self).icon_theme@, delta as int, 0),
            final(self).dirty_since_load,
            final(self).feedback is None,
    {
        let list = themes();
        let next = step_choice_from_first(&list, self.icon_theme.as_str(), delta);
        self.icon_theme = String::from_str(next);
        self.dirty_since_load = true;
        self.feedback = None;
    }

    /// Applies a key: `←`/`h` and `→`/`l`/space step the theme; `s` and `r`
    /// are returned as requests to save and to revert.
    pub fn handle_key(&mut self, key: Key) -> (r: KeyRequest)
        ensures
            r == key_request(key),
            is_left(key) ==> final(self).icon_theme@ == step_choice(
                themes_spec(),
                old(self).icon_theme@,
                -1,
                0,
            ),
            is_right(key) ==> final(self).icon_theme@ == step_choice(
                themes_spec(),
                old(self).icon_theme@,
                1,
                0,
            ),
            !is_left(key) && !is_right(key) ==> *final(self) == *old(self),
    {
        proof {
            lemma_index_from(themes_spec(), self.icon_theme@, 0);
        }
        match key {
            Key::Left | Key::Char('h') => self.cycle(-1),
            Key::Right | Key::Char('l') | Key::Char(' ') => self.cycle(1),
            _ => {},
        }
        request_of(key)
    }
}

/// Saving the form and loading the config it wrote gives the theme back.
pub proof fn law_save_then_load(before: ConfigEditor, after: ConfigEditor, theme: Seq<char>)
    requires
        theme_saved(before, after, theme),
    ensures
        loaded_theme(after) == theme,
{
}

/// Stepping the theme always lands on one of the listed themes.
pub proof fn law_cycle_stays_in_list(theme: Seq<char>, delta: int)
    ensures
        themes_spec().contains(step_choice(themes_spec(), theme, delta, 0)),
{
    lemma_index_from(themes_spec(), theme, 0);
    let i = (index_or(themes_spec(), theme, 0) + delta) % 10;
    assert(themes_spec()[i] == step_choice(themes_spec(), theme, delta, 0));
}

} // verus!
