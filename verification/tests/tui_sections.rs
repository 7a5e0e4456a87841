use voxtype::tui::advanced_section::{self, AdvancedState};
use voxtype::tui::audio::{self, AudioForm};
use voxtype::tui::common::{auto_or_number, cycle_index, yesno, FeedbackLevel, Key, KeyRequest};
use voxtype::tui::config_editor::{config_edits, ConfigEditor, ConfigEntry, ConfigValue, EditorError};
use voxtype::tui::engine::{self, EngineState, WField};
use voxtype::tui::meeting_section::{self, MeetingState};
use voxtype::tui::models_section::{self, ModelList, ModelsState};
use voxtype::tui::notifications_section::{self, NotificationsState};
use voxtype::tui::vad_section::{self, VadForm};
use voxtype::tui::waybar_section::WaybarState;

fn entry(table: &str, key: &str, value: ConfigValue) -> ConfigEntry {
    ConfigEntry {
        table: table.to_string(),
        key: key.to_string(),
        value,
    }
}

fn editor(entries: Vec<ConfigEntry>) -> ConfigEditor {
    ConfigEditor {
        path: "/home/u/.config/voxtype/config.toml".to_string(),
        entries,
    }
}

fn err(msg: &str) -> EditorError {
    EditorError {
        message: msg.to_string(),
    }
}

#[test]
fn config_editor_get_set_unset() {
    let mut ed = editor(vec![
        entry("whisper", "model", ConfigValue::Str("base.en".into())),
        entry("whisper", "threads", ConfigValue::Int(4)),
        entry("audio", "pause_media", ConfigValue::Bool(true)),
        entry("audio.feedback", "volume", ConfigValue::Other),
    ]);
    assert_eq!(ed.get_string("whisper", "model").as_deref(), Some("base.en"));
    assert_eq!(ed.get_int("whisper", "threads"), Some(4));
    assert_eq!(ed.get_bool("audio", "pause_media"), Some(true));
    assert_eq!(ed.get_bool("whisper", "model"), None);
    assert_eq!(ed.get_string("audio.feedback", "volume"), None);
    ed.set_int("whisper", "threads", 8);
    ed.set_bool("vad", "enabled", true);
    ed.unset("whisper", "model");
    assert_eq!(ed.get_int("whisper", "threads"), Some(8));
    assert_eq!(ed.get_bool("vad", "enabled"), Some(true));
    assert_eq!(ed.get_string("whisper", "model"), None);
    assert_eq!(ed.entries.len(), 4);
}

#[test]
fn cycle_index_wraps_both_ways() {
    assert_eq!(cycle_index(0, -1, 5), 4);
    assert_eq!(cycle_index(4, 1, 5), 0);
    assert_eq!(cycle_index(2, -7, 5), 0);
    assert_eq!(cycle_index(2, 13, 5), 0);
    assert_eq!(yesno(true), "yes");
    assert_eq!(yesno(false), "no");
}

#[test]
fn waybar_load_cycle_save() {
    let ed = editor(vec![entry("status", "icon_theme", ConfigValue::Str("text".into()))]);
    let mut s = WaybarState::load(&ed);
    assert_eq!(s.icon_theme, "text");
    assert_eq!(s.handle_key(Key::Right), KeyRequest::Nothing);
    assert_eq!(s.icon_theme, "emoji");
    assert!(s.dirty_since_load);
    s.handle_key(Key::Char('h'));
    assert_eq!(s.icon_theme, "text");
    assert_eq!(s.handle_key(Key::Char('s')), KeyRequest::Save);
    let saved = s.save(Ok(editor(vec![]))).unwrap();
    assert_eq!(saved.get_string("status", "icon_theme").as_deref(), Some("text"));
    s.finish_save(Ok("/tmp/c.toml".to_string()));
    assert!(!s.dirty_since_load);
    assert_eq!(s.feedback, Some((FeedbackLevel::Success, "Saved to /tmp/c.toml".to_string())));
    assert!(s.save(Err(err("denied"))).is_none());
    assert_eq!(s.feedback, Some((FeedbackLevel::Failure, "load: denied".to_string())));
    let mut unknown = WaybarState::load(&editor(vec![entry("status", "icon_theme", ConfigValue::Str("custom".into()))]));
    unknown.cycle(1);
    assert_eq!(unknown.icon_theme, "nerd-font");
    let defaulted = WaybarState::load(&editor(vec![]));
    assert_eq!(defaulted.icon_theme, "emoji");
}

#[test]
fn advanced_roundtrip_and_gpu_device() {
    let ed = editor(vec![
        entry("whisper", "gpu_isolation", ConfigValue::Bool(true)),
        entry("whisper", "gpu_device", ConfigValue::Int(6)),
    ]);
    let mut s = AdvancedState::load(&ed);
    assert!(s.gpu_isolation && !s.flash_attention);
    assert_eq!(s.gpu_device, Some(6));
    assert_eq!(s.field, advanced_section::Field::GpuIsolation);
    s.handle_key(Key::Up);
    assert_eq!(s.field, advanced_section::Field::GpuDevice);
    s.cycle(1);
    s.cycle(1);
    assert_eq!(s.gpu_device, Some(7));
    for _ in 0..9 {
        s.cycle(-1);
    }
    assert_eq!(s.gpu_device, None);
    let saved = s.save(Ok(ed)).unwrap();
    assert_eq!(saved.get_int("whisper", "gpu_device"), None);
    assert_eq!(saved.get_bool("whisper", "eager_processing"), Some(false));
    let again = AdvancedState::load(&saved);
    assert_eq!(again.gpu_device, None);
    assert!(again.gpu_isolation);
    let mut r = AdvancedState::load(&saved);
    r.field = advanced_section::Field::Eager;
    r.reset(Ok(editor(vec![])));
    assert_eq!(r.field, advanced_section::Field::Eager);
    assert!(!r.gpu_isolation);
    assert_eq!(r.feedback, Some((FeedbackLevel::Success, "Reverted".to_string())));
}

#[test]
fn meeting_and_notifications_forms() {
    let ed = editor(vec![
        entry("meeting", "enabled", ConfigValue::Bool(true)),
        entry("meeting.audio", "source", ConfigValue::Str("both".into())),
        entry("output.notification", "on_transcription", ConfigValue::Bool(false)),
    ]);
    let mut m = MeetingState::load(&ed);
    assert!(m.enabled && !m.diarization_enabled);
    assert_eq!(m.audio_source, "both");
    m.move_field(2);
    assert_eq!(m.field, meeting_section::Field::AudioSource);
    m.cycle(1);
    assert_eq!(m.audio_source, "mic");
    let saved = m.save(Ok(editor(vec![]))).unwrap();
    assert_eq!(saved.get_string("meeting.audio", "source").as_deref(), Some("mic"));
    assert_eq!(saved.get_bool("meeting.diarization", "enabled"), Some(false));

    let mut n = NotificationsState::load(&ed);
    assert!(!n.on_transcription && !n.on_recording_start);
    n.handle_key(Key::Char('j'));
    n.handle_key(Key::Char('j'));
    assert_eq!(n.field, notifications_section::Field::OnTranscription);
    n.handle_key(Key::Char(' '));
    assert!(n.on_transcription);
    let defaults = NotificationsState::load(&editor(vec![]));
    assert!(defaults.on_transcription);
}

#[test]
fn engine_form() {
    let ed = editor(vec![
        entry("whisper", "language", ConfigValue::Str("ar".into())),
        entry("whisper", "threads", ConfigValue::Int(64)),
        entry("whisper", "initial_prompt", ConfigValue::Str("".into())),
    ]);
    let mut e = EngineState::load(&ed);
    assert_eq!(e.engine, "whisper");
    assert_eq!(e.whisper.mode, "local");
    e.handle_key(Key::Down);
    e.handle_key(Key::Right);
    assert_eq!(e.whisper.language, "auto");
    e.field = WField::Threads;
    e.cycle(1);
    assert_eq!(e.whisper.threads, Some(64));
    e.field = WField::Prompt;
    e.cycle(1);
    assert_eq!(e.whisper.initial_prompt, None);
    e.cycle(1);
    assert_eq!(e.whisper.initial_prompt.as_deref(), Some(engine::SAMPLE_PROMPT));
    let saved = e.save(Ok(ed)).unwrap();
    assert_eq!(saved.get_string("whisper", "initial_prompt").as_deref(), Some(engine::SAMPLE_PROMPT));
    e.reset(Err(err("gone")));
    assert_eq!(e.feedback.as_ref().unwrap().message, "reload: gone");
    let mut other = EngineState::load(&editor(vec![entry("", "engine", ConfigValue::Str("parakeet".into()))]));
    assert_eq!(other.handle_key(Key::Char('s')), KeyRequest::Nothing);
    assert!(!other.dirty_since_load);
}

#[test]
fn models_section_flow() {
    let ed = editor(vec![
        entry("", "engine", ConfigValue::Str("parakeet".into())),
        entry("parakeet", "model", ConfigValue::Str("b".into())),
    ]);
    assert_eq!(models_section::configured_engine(&ed), "parakeet");
    assert_eq!(models_section::model_list("parakeet"), ModelList::Parakeet);
    assert_eq!(models_section::model_list("dolphin"), ModelList::Unknown);
    let catalog = models_section::build_catalog(
        &vec!["a".to_string(), "b".to_string(), "c".to_string()],
        &vec![true, false, true],
    );
    let mut m = ModelsState::load(&ed, catalog);
    assert_eq!(m.current_model, "b");
    assert_eq!(m.cursor, 1);
    m.handle_key(Key::Down);
    m.handle_key(Key::Down);
    assert_eq!(m.cursor, 0);
    m.handle_key(Key::Enter);
    assert_eq!(m.current_model, "a");
    assert!(m.dirty_since_load);
    let saved = m.save(Ok(ed)).unwrap();
    assert_eq!(saved.get_string("parakeet", "model").as_deref(), Some("a"));
    m.finish_save(Ok("/p".to_string()));
    assert_eq!(m.feedback.as_ref().unwrap().message, "Saved [parakeet] model = a");
    assert_eq!(models_section::whisper_filename("base.en"), "ggml-base.en.bin");
    assert_eq!(models_section::installed_name("whisper", "tiny"), "ggml-tiny.bin");
    assert_eq!(models_section::installed_name("moonshine", "tiny"), "tiny");
    let whisper = ModelsState::load(&editor(vec![]), vec![]);
    assert_eq!(whisper.engine, "whisper");
    assert_eq!(whisper.current_model, "small.en");
    assert_eq!(whisper.cursor, 0);
}

#[test]
fn audio_and_vad_rules() {
    let choices = audio::device_choices(&vec![
        "default".to_string(),
        "USB Mic".to_string(),
        "USB Mic".to_string(),
        "Webcam".to_string(),
    ]);
    assert_eq!(choices, vec!["default".to_string(), "USB Mic".to_string(), "Webcam".to_string()]);
    assert_eq!(audio::step_device(&choices, "missing", 1).as_deref(), Some("default"));
    assert_eq!(audio::step_device(&choices, "default", -1).as_deref(), Some("Webcam"));
    assert_eq!(audio::step_device(&vec![], "default", 1), None);
    assert_eq!(audio::step_theme("unknown", 1), "default");
    assert_eq!(audio::step_theme("default", -1), "mechanical");
    assert_eq!(audio::step_max_duration(120, 1), 150);
    assert_eq!(audio::step_max_duration(30, -1), 30);
    assert_eq!(audio::step_max_duration(1800, 1), 1800);
    assert_eq!(audio::step_max_duration(3_000_000_000, 1), 30);
    let ed = editor(vec![entry("audio", "max_duration_secs", ConfigValue::Int(-5))]);
    assert_eq!(audio::max_duration_of(&ed), 0);
    assert_eq!(audio::max_duration_of(&editor(vec![])), 120);
    assert_eq!(audio::display_device("USB Mic", 3), "USB Mic");
    assert_eq!(audio::Field::Device.step(-1), audio::Field::FeedbackVolume);
    assert_eq!(vad_section::step_backend("whisper", 1), "auto");
    assert_eq!(vad_section::step_backend("bogus", -1), "whisper");
    assert_eq!(vad_section::Field::Threshold.step(1), vad_section::Field::Enabled);
}

#[test]
fn counts_show_auto_when_unset() {
    assert_eq!(auto_or_number(None), "auto");
    assert_eq!(auto_or_number(Some(0)), "0");
    assert_eq!(auto_or_number(Some(7)), "7");
    assert_eq!(auto_or_number(Some(-12)), "-12");
    assert_eq!(auto_or_number(Some(i64::MIN)), "-9223372036854775808");
    assert_eq!(yesno(true), "yes");
    assert_eq!(yesno(false), "no");
}

#[test]
fn prompt_display_truncates_long_prompts() {
    assert_eq!(engine::prompt_display(&None), "(none)");
    assert_eq!(engine::prompt_display(&Some("short".to_string())), "short");
    let exactly = "a".repeat(30);
    assert_eq!(engine::prompt_display(&Some(exactly.clone())), exactly);
    assert_eq!(
        engine::prompt_display(&Some(engine::SAMPLE_PROMPT.to_string())),
        "Transcribe with proper capital…"
    );
    // Multi-byte characters count by bytes: 15 two-byte letters fill 30 bytes.
    let accents = "é".repeat(16);
    assert_eq!(engine::prompt_display(&Some(accents)), format!("{}…", "é".repeat(15)));
}

#[test]
fn vad_form_load_cycle_save_reset() {
    let ed = editor(vec![
        entry("vad", "enabled", ConfigValue::Bool(true)),
        entry("vad", "backend", ConfigValue::Str("energy".into())),
    ]);
    let mut form = VadForm::load(&ed);
    assert!(form.enabled);
    assert_eq!(form.backend, "energy");
    assert_eq!(form.field, vad_section::Field::Enabled);
    assert!(!form.dirty_since_load);

    assert_eq!(form.handle_key(Key::Down), KeyRequest::Nothing);
    assert_eq!(form.field, vad_section::Field::Backend);
    form.handle_key(Key::Right);
    assert_eq!(form.backend, "whisper");
    assert!(form.dirty_since_load);
    form.handle_key(Key::Char('l'));
    assert_eq!(form.backend, "auto");
    form.handle_key(Key::Char('k'));
    assert_eq!(form.field, vad_section::Field::Enabled);
    form.handle_key(Key::Char(' '));
    assert!(!form.enabled);
    form.handle_key(Key::Char('h'));
    assert!(form.enabled);
    form.handle_key(Key::Char('l'));
    assert!(!form.enabled);

    // On the threshold row the form itself keeps its values.
    form.handle_key(Key::Up);
    assert_eq!(form.field, vad_section::Field::Threshold);
    form.handle_key(Key::Left);
    assert!(!form.enabled);
    assert_eq!(form.backend, "auto");

    assert_eq!(form.handle_key(Key::Char('s')), KeyRequest::Save);
    let saved = form.save(Ok(ed), "0.55").unwrap();
    assert_eq!(saved.get_bool("vad", "enabled"), Some(false));
    assert_eq!(saved.get_string("vad", "backend").as_deref(), Some("auto"));
    assert_eq!(saved.get_string("vad", "threshold").as_deref(), Some("0.55"));
    let back = VadForm::load(&saved);
    assert_eq!(back.enabled, form.enabled);
    assert_eq!(back.backend, form.backend);
    form.finish_save(Ok(saved.path.clone()));
    assert!(!form.dirty_since_load);
    assert_eq!(
        form.feedback,
        Some((FeedbackLevel::Success, "Saved to /home/u/.config/voxtype/config.toml".to_string()))
    );

    assert!(form.save(Err(err("missing")), "0.50").is_none());
    assert_eq!(form.feedback, Some((FeedbackLevel::Failure, "load: missing".to_string())));

    form.reset(Err(err("gone")));
    assert_eq!(form.feedback, Some((FeedbackLevel::Failure, "reload: gone".to_string())));
    form.reset(Ok(saved));
    assert_eq!(form.field, vad_section::Field::Threshold);
    assert!(!form.enabled);
    assert_eq!(form.feedback, Some((FeedbackLevel::Success, "Reverted".to_string())));

    let fresh = VadForm::load(&editor(vec![]));
    assert!(!fresh.enabled);
    assert_eq!(fresh.backend, "auto");
}

#[test]
fn audio_form_load_cycle_save_reset() {
    let ed = editor(vec![
        entry("audio", "device", ConfigValue::Str("USB Mic".into())),
        entry("audio", "max_duration_secs", ConfigValue::Int(90)),
        entry("audio.feedback", "enabled", ConfigValue::Bool(true)),
        entry("audio.feedback", "volume", ConfigValue::Str("0.70".into())),
    ]);
    let choices = audio::device_choices(&vec!["USB Mic".to_string(), "Webcam".to_string()]);
    let mut form = AudioForm::load(&ed, choices);
    assert_eq!(form.device, "USB Mic");
    assert_eq!(form.max_duration_secs, 90);
    assert!(!form.pause_media);
    assert!(form.feedback_enabled);
    assert_eq!(form.feedback_theme, "default");
    assert_eq!(form.field, audio::Field::Device);

    form.handle_key(Key::Right);
    assert_eq!(form.device, "Webcam");
    form.handle_key(Key::Right);
    assert_eq!(form.device, "default");
    form.handle_key(Key::Down);
    form.handle_key(Key::Left);
    assert_eq!(form.max_duration_secs, 60);
    form.handle_key(Key::Left);
    form.handle_key(Key::Left);
    assert_eq!(form.max_duration_secs, 30);
    form.handle_key(Key::Down);
    form.handle_key(Key::Right);
    assert!(form.pause_media);
    form.handle_key(Key::Down);
    form.handle_key(Key::Down);
    form.handle_key(Key::Left);
    assert_eq!(form.feedback_theme, "mechanical");
    form.handle_key(Key::Down);
    assert_eq!(form.field, audio::Field::FeedbackVolume);
    form.handle_key(Key::Right);
    assert_eq!(form.feedback_theme, "mechanical");
    form.handle_key(Key::Down);
    assert_eq!(form.field, audio::Field::Device);
    form.handle_key(Key::Up);
    assert_eq!(form.field, audio::Field::FeedbackVolume);

    let saved = form.save(Ok(ed), "0.80").unwrap();
    assert_eq!(saved.get_string("audio", "device").as_deref(), Some("default"));
    assert_eq!(saved.get_int("audio", "max_duration_secs"), Some(30));
    assert_eq!(saved.get_bool("audio", "pause_media"), Some(true));
    assert_eq!(saved.get_bool("audio.feedback", "enabled"), Some(true));
    assert_eq!(saved.get_string("audio.feedback", "theme").as_deref(), Some("mechanical"));
    assert_eq!(saved.get_string("audio.feedback", "volume").as_deref(), Some("0.80"));
    let back = AudioForm::load(&saved, vec![]);
    assert_eq!(back.device, form.device);
    assert_eq!(back.max_duration_secs, form.max_duration_secs);
    assert_eq!(back.pause_media, form.pause_media);
    assert_eq!(back.feedback_enabled, form.feedback_enabled);
    assert_eq!(back.feedback_theme, form.feedback_theme);

    form.finish_save(Err(err("read-only")));
    assert!(form.dirty_since_load);
    let fb = form.feedback.as_ref().unwrap();
    assert_eq!(fb.level, audio::FeedbackLevel::Failure);
    assert_eq!(fb.message, "save: read-only");

    form.reset(Ok(editor(vec![])));
    assert_eq!(form.device, "default");
    assert_eq!(form.max_duration_secs, 120);
    assert_eq!(form.field, audio::Field::FeedbackVolume);
    assert_eq!(form.device_choices.len(), 3);
    assert_eq!(form.feedback.as_ref().unwrap().message, "Reverted unsaved changes");
    form.reset(Err(err("gone")));
    assert_eq!(form.feedback.as_ref().unwrap().message, "reload: gone");
}

#[test]
fn advanced_and_meeting_keys_change_values() {
    let ed = editor(vec![entry("whisper", "gpu_device", ConfigValue::Int(6))]);
    let mut adv = AdvancedState::load(&ed);
    adv.handle_key(Key::Up);
    assert_eq!(adv.field, advanced_section::Field::GpuDevice);
    adv.handle_key(Key::Right);
    assert_eq!(adv.gpu_device, Some(7));
    adv.handle_key(Key::Right);
    assert_eq!(adv.gpu_device, Some(7));
    adv.handle_key(Key::Down);
    adv.handle_key(Key::Char('h'));
    assert!(adv.gpu_isolation);
    let mut m = MeetingState::load(&editor(vec![]));
    m.handle_key(Key::Up);
    assert_eq!(m.field, meeting_section::Field::AudioSource);
    m.handle_key(Key::Left);
    assert_eq!(m.audio_source, "both");
}

#[test]
fn config_edits_list_removals_and_changed_values() {
    let file = editor(vec![
        entry("whisper", "model", ConfigValue::Str("base.en".into())),
        entry("whisper", "threads", ConfigValue::Int(4)),
        entry("whisper", "gpu_device", ConfigValue::Int(1)),
        entry("audio.feedback", "volume", ConfigValue::Other),
    ]);
    let mut edited = editor(vec![
        entry("whisper", "model", ConfigValue::Str("base.en".into())),
        entry("whisper", "threads", ConfigValue::Int(4)),
        entry("whisper", "gpu_device", ConfigValue::Int(1)),
        entry("audio.feedback", "volume", ConfigValue::Other),
    ]);
    edited.set_int("whisper", "threads", 8);
    edited.unset("whisper", "gpu_device");
    edited.set_bool("vad", "enabled", true);
    let edits = config_edits(&file, &edited);
    assert_eq!(edits.removed, vec![("whisper".to_string(), "gpu_device".to_string())]);
    let written: Vec<(String, String)> = edits
        .written
        .iter()
        .map(|e| (e.table.clone(), e.key.clone()))
        .collect();
    assert_eq!(
        written,
        vec![
            ("whisper".to_string(), "threads".to_string()),
            ("vad".to_string(), "enabled".to_string()),
        ]
    );
    assert!(matches!(edits.written[0].value, ConfigValue::Int(8)));
    assert!(matches!(edits.written[1].value, ConfigValue::Bool(true)));

    let none = config_edits(&file, &file);
    assert!(none.removed.is_empty());
    assert!(none.written.is_empty());
}

#[test]
fn guidance_names_each_row() {
    let mode = engine::guidance_for_field(WField::Mode);
    assert_eq!(mode.len(), 10);
    assert_eq!(mode[0], (engine::GuideStyle::Heading, "Execution mode"));
    assert_eq!(mode[1], (engine::GuideStyle::Plain, ""));
    assert_eq!(mode[2], (engine::GuideStyle::Bold, "local: "));
    let prompt = engine::guidance_for_field(WField::Prompt);
    assert_eq!(prompt[0], (engine::GuideStyle::Heading, "Initial prompt"));
    assert_eq!(prompt.last().unwrap().0, engine::GuideStyle::Dim);
    assert_eq!(engine::guidance_for_field(WField::GpuIsolation)[0].1, "GPU isolation");
}

#[test]
fn catalog_rows_mark_active_installed_and_missing() {
    let (m, t) = models_section::catalog_row("small.en", true, "small.en");
    assert_eq!(m, models_section::RowMarker::Active);
    assert_eq!(t, "small.en");
    let (m, t) = models_section::catalog_row("base", true, "small.en");
    assert_eq!(m, models_section::RowMarker::Installed);
    assert_eq!(t, "base");
    let (m, t) = models_section::catalog_row("large-v3", false, "small.en");
    assert_eq!(m, models_section::RowMarker::NotDownloaded);
    assert_eq!(t, "large-v3  (not downloaded)");
    let (m, t) = models_section::catalog_row("tiny", false, "tiny");
    assert_eq!(m, models_section::RowMarker::Active);
    assert_eq!(t, "tiny  (not downloaded)");
}
