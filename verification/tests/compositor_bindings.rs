use voxtype::compositor_bindings::{
    action_from_command, action_in_lowered, dominant_compositor, hyprland_bindings, is_known_action, niri_bindings, parse_hyprland_line,
    parse_niri_line, parse_sway_line, quote_words, render_lines, suggest_missing, sway_bindings,
    BindShape, Binding, Compositor,
};

fn dummy_path() -> &'static str {
    "/tmp/dummy.conf"
}

fn binding(compositor: &'static str, action: &str) -> Binding {
    Binding {
        compositor,
        keys: "k".into(),
        action: action.into(),
        source: String::new(),
    }
}

#[test]
fn parses_hyprland_bindd() {
    let line = "bindd  = , HOME, Voxtype PTT (start), exec, voxtype record start";
    let b = parse_hyprland_line(line, dummy_path()).unwrap();
    assert_eq!(b.compositor, "Hyprland");
    assert_eq!(b.keys, "HOME");
    assert_eq!(b.action, "record start");
}

#[test]
fn parses_hyprland_bindrd_with_mod() {
    let line = "bindrd = SUPER, F13, Stop, exec, voxtype record stop";
    let b = parse_hyprland_line(line, dummy_path()).unwrap();
    assert_eq!(b.keys, "SUPER+F13");
    assert_eq!(b.action, "record stop");
}

#[test]
fn parses_hyprland_meeting_start() {
    let line = "bind = SUPER, M, Meeting start, exec, voxtype meeting start";
    let b = parse_hyprland_line(line, dummy_path()).unwrap();
    assert_eq!(b.action, "meeting start");
}

#[test]
fn skips_hyprland_comments_and_unrelated() {
    assert!(parse_hyprland_line("# bind = , HOME, ..., exec, voxtype record start", dummy_path()).is_none());
    assert!(parse_hyprland_line("bind = , HOME, ..., exec, alacritty", dummy_path()).is_none());
}

#[test]
fn parses_sway_bindsym() {
    let line = "bindsym Mod4+Home exec voxtype record toggle";
    let b = parse_sway_line(line, dummy_path()).unwrap();
    assert_eq!(b.compositor, "Sway");
    assert_eq!(b.keys, "Mod4+Home");
    assert_eq!(b.action, "record toggle");
}

#[test]
fn parses_sway_with_release_flag() {
    let line = "bindsym --release Mod4+Home exec voxtype record stop";
    let b = parse_sway_line(line, dummy_path()).unwrap();
    assert_eq!(b.keys, "Mod4+Home");
    assert_eq!(b.action, "record stop");
}

#[test]
fn parses_niri_spawn() {
    let line = r#"    Mod+Home { spawn "voxtype" "record" "start"; }"#;
    let b = parse_niri_line(line, dummy_path()).unwrap();
    assert_eq!(b.compositor, "Niri");
    assert_eq!(b.keys, "Mod+Home");
    assert_eq!(b.action, "record start");
}

#[test]
fn parses_niri_meeting() {
    let line = r#"Mod+M { spawn "voxtype" "meeting" "start"; }"#;
    let b = parse_niri_line(line, dummy_path()).unwrap();
    assert_eq!(b.action, "meeting start");
}

#[test]
fn suggests_cancel_when_only_ptt_bound() {
    let detected = vec![
        Binding {
            compositor: "Hyprland",
            keys: "HOME".into(),
            action: "record start".into(),
            source: "/dev/null".to_string(),
        },
        Binding {
            compositor: "Hyprland",
            keys: "HOME".into(),
            action: "record stop".into(),
            source: "/dev/null".to_string(),
        },
    ];
    let labels: Vec<_> = suggest_missing(&detected)
        .iter()
        .map(|s| s.label.clone())
        .collect();
    assert!(labels.iter().any(|l| l.contains("Cancel")));
    assert!(labels.iter().any(|l| l.contains("Toggle")));
    assert!(labels.iter().any(|l| l.contains("Meeting")));
}

#[test]
fn dominant_compositor_picks_majority() {
    let bindings = vec![
        Binding {
            compositor: "Sway",
            keys: "k".into(),
            action: "record start".into(),
            source: String::new(),
        },
        Binding {
            compositor: "Sway",
            keys: "k".into(),
            action: "record stop".into(),
            source: String::new(),
        },
        Binding {
            compositor: "Hyprland",
            keys: "k".into(),
            action: "record toggle".into(),
            source: String::new(),
        },
    ];
    assert_eq!(dominant_compositor(&bindings), Compositor::Sway);
}

#[test]
fn dominant_compositor_empty_defaults_to_hyprland() {
    assert_eq!(dominant_compositor(&[]), Compositor::Hyprland);
}

#[test]
fn niri_skips_other_spawn_lines() {
    let line = r#"    Mod+T { spawn "alacritty"; }"#;
    assert!(parse_niri_line(line, dummy_path()).is_none());
}

#[test]
fn niri_skips_comments() {
    let line = r#"// Mod+Home { spawn "voxtype" "record" "start"; }"#;
    assert!(parse_niri_line(line, dummy_path()).is_none());
}

#[test]
fn rejects_unknown_action() {
    let line = "bindd = , HOME, ..., exec, voxtype record dance";
    assert!(parse_hyprland_line(line, dummy_path()).is_none());
}

#[test]
fn hyprland_needs_four_fields_and_bind_prefix() {
    assert!(parse_hyprland_line("bind = , HOME, voxtype record start", dummy_path()).is_none());
    assert!(parse_hyprland_line("exec = , HOME, x, exec, voxtype record start", dummy_path()).is_none());
    let b = parse_hyprland_line("  bindl=ALT,F1,x,exec,VoxType Record Start  ", dummy_path());
    assert!(b.is_none());
    let b = parse_hyprland_line("bindl = ALT, F1, voxtype, exec, VOXTYPE record start", dummy_path()).unwrap();
    assert_eq!(b.keys, "ALT+F1");
    assert_eq!(b.action, "record start");
    assert_eq!(b.source, dummy_path());
}

#[test]
fn command_words_are_trimmed_of_punctuation() {
    let b = parse_hyprland_line("bind = , F2, x, exec, voxtype 'record' \"cancel\";", dummy_path()).unwrap();
    assert_eq!(b.action, "record cancel");
}

#[test]
fn sway_needs_exec_and_bind_head() {
    assert!(parse_sway_line("bindsym Mod4+Home voxtype record stop", dummy_path()).is_none());
    assert!(parse_sway_line("set $x voxtype record stop", dummy_path()).is_none());
    assert!(parse_sway_line("# bindsym Mod4+Home exec voxtype record stop", dummy_path()).is_none());
    let b = parse_sway_line("bindcode --locked --release 118 exec   voxtype   meeting   pause", dummy_path()).unwrap();
    assert_eq!(b.keys, "118");
    assert_eq!(b.action, "meeting pause");
}

#[test]
fn niri_requires_three_quoted_args() {
    assert!(parse_niri_line(r#"Mod+H { spawn "voxtype" "record"; }"#, dummy_path()).is_none());
    assert!(parse_niri_line(r#"{ spawn "voxtype" "record" "start"; }"#, dummy_path()).is_none());
    let b = parse_niri_line(r#"Mod+R { spawn "voxtype" "meeting" "resume"; }"#, dummy_path()).unwrap();
    assert_eq!(b.action, "meeting resume");
}

#[test]
fn scanning_text_collects_bindings_in_order() {
    let text = "# comment\nbind = , HOME, a, exec, voxtype record start\r\nbindr = , HOME, b, exec, voxtype record stop\n";
    let bs = hyprland_bindings(text, "/h.conf");
    assert_eq!(bs.len(), 2);
    assert_eq!(bs[0].action, "record start");
    assert_eq!(bs[1].action, "record stop");
    assert_eq!(bs[1].source, "/h.conf");
    let sway = sway_bindings("bindsym F1 exec voxtype record toggle\nbindsym F2 exec foot", "/s");
    assert_eq!(sway.len(), 1);
    assert_eq!(sway[0].compositor, "Sway");
    let niri = niri_bindings("binds {\n    Mod+M { spawn \"voxtype\" \"meeting\" \"stop\"; }\n}\n", "/n");
    assert_eq!(niri.len(), 1);
    assert_eq!(niri[0].keys, "Mod+M");
}

#[test]
fn known_actions() {
    assert!(is_known_action("record start"));
    assert!(is_known_action("meeting resume"));
    assert!(!is_known_action("record dance"));
    assert!(!is_known_action("record  start"));
}

#[test]
fn quote_words_wraps_each_word() {
    assert_eq!(quote_words("record toggle"), "\"record\" \"toggle\"");
    assert_eq!(quote_words("  a  "), "\"a\"");
    assert_eq!(quote_words(""), "");
}

#[test]
fn render_lines_per_compositor() {
    assert_eq!(
        render_lines(Compositor::Hyprland, "record cancel", BindShape::Single),
        vec!["bind = SUPER, SPACE, voxtype record cancel, exec, voxtype record cancel".to_string()]
    );
    assert_eq!(
        render_lines(Compositor::Sway, "record toggle", BindShape::Single),
        vec!["bindsym Mod4+space exec voxtype record toggle".to_string()]
    );
    assert_eq!(
        render_lines(Compositor::Niri, "record toggle", BindShape::Single),
        vec!["Mod+Space { spawn \"voxtype\" \"record\" \"toggle\"; }".to_string()]
    );
    assert_eq!(render_lines(Compositor::Sway, "x", BindShape::PttPair).len(), 2);
    assert_eq!(Compositor::Niri.name(), "Niri");
}

#[test]
fn nothing_suggested_when_everything_bound() {
    let detected: Vec<Binding> = ["record start", "record stop", "record toggle", "record cancel", "meeting start", "meeting stop"]
        .iter()
        .map(|a| binding("Niri", a))
        .collect();
    assert!(suggest_missing(&detected).is_empty());
}

#[test]
fn suggestions_for_empty_config() {
    let s = suggest_missing(&[]);
    let labels: Vec<_> = s.iter().map(|s| s.label.as_str()).collect();
    assert_eq!(
        labels,
        vec![
            "Push-to-talk (start + stop pair)",
            "Toggle (single-key alternative)",
            "Cancel (abort in-progress recording)",
            "Meeting mode (start + stop)",
        ]
    );
    assert_eq!(s[0].config_lines.len(), 2);
}

#[test]
fn suggestions_use_dominant_syntax() {
    let detected = vec![binding("Sway", "record start"), binding("Sway", "meeting stop")];
    let s = suggest_missing(&detected);
    let labels: Vec<_> = s.iter().map(|s| s.label.as_str()).collect();
    assert_eq!(
        labels,
        vec![
            "Stop (release of your PTT key)",
            "Toggle (alternative to PTT)",
            "Cancel (abort in-progress recording)",
            "Meeting start",
        ]
    );
    assert_eq!(s[0].config_lines, vec!["bindsym --release F13 exec voxtype record stop".to_string()]);
}

fn detected(comp: Compositor, lines: &[String]) -> Vec<String> {
    let text = lines.join("\n");
    let found = match comp {
        Compositor::Hyprland => hyprland_bindings(&text, "/tmp/s.conf"),
        Compositor::Sway => sway_bindings(&text, "/tmp/s.conf"),
        Compositor::Niri => niri_bindings(&text, "/tmp/s.conf"),
    };
    found.into_iter().map(|b| b.action).collect()
}

#[test]
fn suggested_lines_are_detected_again() {
    for comp in [Compositor::Hyprland, Compositor::Sway, Compositor::Niri] {
        for action in ["record toggle", "record cancel", "meeting stop", "meeting resume"] {
            let lines = render_lines(comp, action, BindShape::Single);
            assert_eq!(lines.len(), 1);
            assert_eq!(detected(comp, &lines), vec![action.to_string()]);
        }
        let meeting = render_lines(comp, "meeting start/stop", BindShape::MeetingPair);
        assert_eq!(detected(comp, &meeting), vec!["meeting start", "meeting stop"]);
    }
    let ptt = render_lines(Compositor::Hyprland, "record start/stop", BindShape::PttPair);
    assert_eq!(detected(Compositor::Hyprland, &ptt), vec!["record start", "record stop"]);
    let ptt = render_lines(Compositor::Sway, "record start/stop", BindShape::PttPair);
    assert_eq!(detected(Compositor::Sway, &ptt), vec!["record start", "record stop"]);
    let ptt = render_lines(Compositor::Niri, "record start/stop", BindShape::PttPair);
    assert_eq!(detected(Compositor::Niri, &ptt), vec!["record toggle"]);
    let release = render_lines(Compositor::Niri, "record stop", BindShape::PttRelease);
    assert!(release[0].starts_with("//"));
    assert!(detected(Compositor::Niri, &release).is_empty());
}

#[test]
fn action_lookup_on_lowered_text() {
    // The words are taken from the command as written, so capitals stay and
    // the action is not a known one.
    let cmd = "VoxType Record Start";
    assert_eq!(action_in_lowered(cmd, "voxtype record start"), None);
    assert_eq!(action_in_lowered("VoxType record start", "voxtype record start").as_deref(), Some("record start"));
    assert_eq!(action_in_lowered("voxtype record start", "voxtype record start").as_deref(), Some("record start"));
    assert_eq!(action_in_lowered("run voxtype meeting stop;", "run voxtype meeting stop;").as_deref(), Some("meeting stop"));
    assert_eq!(action_in_lowered("voxtype record", "voxtype record"), None);
    assert_eq!(action_in_lowered("echo hi", "echo hi"), None);
    assert_eq!(action_in_lowered("voxtype record explode", "voxtype record explode"), None);
    assert_eq!(action_from_command("VOXTYPE record toggle").as_deref(), Some("record toggle"));
    assert_eq!(action_from_command("exec voxtype \"record\" \"cancel\"").as_deref(), Some("record cancel"));
    // A quote right after `voxtype` is a word of its own, which trims to nothing.
    assert_eq!(action_from_command("exec 'voxtype' \"record\" \"cancel\""), None);
}

#[test]
fn dominant_compositor_ignores_order() {
    let mut bs = vec![
        binding("Sway", "record start"),
        binding("Niri", "record stop"),
        binding("Sway", "record cancel"),
        binding("Hyprland", "record toggle"),
    ];
    assert_eq!(dominant_compositor(&bs), Compositor::Sway);
    bs.reverse();
    assert_eq!(dominant_compositor(&bs), Compositor::Sway);
    bs.rotate_left(1);
    assert_eq!(dominant_compositor(&bs), Compositor::Sway);
}
