use voxtype::post_process::{
    OutputActions, PostProcessConfig, PostProcessError, PostProcessor, MAX_BACKSPACES,
};

fn make_config(command: &str, timeout_ms: u64) -> PostProcessConfig {
    PostProcessConfig {
        command: command.to_string(),
        timeout_ms,
        trim: true,
        fallback_on_empty: true,
        enable_control_codes: false,
    }
}

#[test]
fn test_parse_actions_disabled() {
    let output = PostProcessor::parse_actions("<<<VOXTYPE:BACKSPACE=3>>>hello", false);
    assert_eq!(output.text, "<<<VOXTYPE:BACKSPACE=3>>>hello");
    assert_eq!(output.actions, OutputActions::default());
}

#[test]
fn test_parse_actions_backspace() {
    let output = PostProcessor::parse_actions("<<<VOXTYPE:BACKSPACE=3>>>hello", true);
    assert_eq!(output.text, "hello");
    assert_eq!(output.actions.backspaces, 3);
    assert!(!output.actions.enter);
}

#[test]
fn test_parse_actions_enter() {
    let output = PostProcessor::parse_actions("<<<VOXTYPE:ENTER>>>hello", true);
    assert_eq!(output.text, "hello");
    assert_eq!(output.actions.backspaces, 0);
    assert!(output.actions.enter);
}

#[test]
fn test_parse_actions_multiple_headers() {
    let output =
        PostProcessor::parse_actions("<<<VOXTYPE:BACKSPACE=2>>><<<VOXTYPE:ENTER>>>hello", true);
    assert_eq!(output.text, "hello");
    assert_eq!(output.actions.backspaces, 2);
    assert!(output.actions.enter);
}

#[test]
fn test_parse_actions_malformed_header() {
    let output = PostProcessor::parse_actions("<<<VOXTYPE:BACKSPACE=abc>>>hello", true);
    assert_eq!(output.text, "<<<VOXTYPE:BACKSPACE=abc>>>hello");
    assert_eq!(output.actions, OutputActions::default());
}

#[test]
fn test_parse_actions_clamp() {
    let output = PostProcessor::parse_actions("<<<VOXTYPE:BACKSPACE=99999>>>hello", true);
    assert_eq!(output.text, "hello");
    assert_eq!(output.actions.backspaces, MAX_BACKSPACES);
}

#[test]
fn test_parse_actions_header_only() {
    let output = PostProcessor::parse_actions("<<<VOXTYPE:ENTER>>>", true);
    assert_eq!(output.text, "");
    assert!(output.actions.enter);
    assert_eq!(output.actions.backspaces, 0);
}

#[test]
fn test_parse_actions_no_actions() {
    let output = PostProcessor::parse_actions("just text", true);
    assert_eq!(output.text, "just text");
    assert_eq!(output.actions, OutputActions::default());
}

#[test]
fn parse_actions_backspaces_accumulate_and_cap() {
    let output = PostProcessor::parse_actions(
        "<<<VOXTYPE:BACKSPACE=4000>>><<<VOXTYPE:BACKSPACE=100>>>x",
        true,
    );
    assert_eq!(output.text, "x");
    assert_eq!(output.actions.backspaces, 4096);
    let output = PostProcessor::parse_actions(
        "<<<VOXTYPE:BACKSPACE=10>>><<<VOXTYPE:BACKSPACE=5>>>x",
        true,
    );
    assert_eq!(output.actions.backspaces, 15);
}

#[test]
fn parse_actions_number_forms() {
    let plus = PostProcessor::parse_actions("<<<VOXTYPE:BACKSPACE=+7>>>a", true);
    assert_eq!(plus.text, "a");
    assert_eq!(plus.actions.backspaces, 7);
    let minus = PostProcessor::parse_actions("<<<VOXTYPE:BACKSPACE=-1>>>a", true);
    assert_eq!(minus.text, "<<<VOXTYPE:BACKSPACE=-1>>>a");
    let empty = PostProcessor::parse_actions("<<<VOXTYPE:BACKSPACE=>>>a", true);
    assert_eq!(empty.text, "<<<VOXTYPE:BACKSPACE=>>>a");
    let overflow = PostProcessor::parse_actions("<<<VOXTYPE:BACKSPACE=4294967296>>>a", true);
    assert_eq!(overflow.text, "<<<VOXTYPE:BACKSPACE=4294967296>>>a");
    let max = PostProcessor::parse_actions("<<<VOXTYPE:BACKSPACE=4294967295>>>a", true);
    assert_eq!(max.actions.backspaces, 4096);
    let unclosed = PostProcessor::parse_actions("<<<VOXTYPE:BACKSPACE=3", true);
    assert_eq!(unclosed.text, "<<<VOXTYPE:BACKSPACE=3");
}

#[test]
fn parse_actions_is_idempotent_on_its_output() {
    let first = PostProcessor::parse_actions("<<<VOXTYPE:ENTER>>><<<VOXTYPE:ENTER>>>rest", true);
    assert_eq!(first.text, "rest");
    let second = PostProcessor::parse_actions(&first.text, true);
    assert_eq!(second.text, "rest");
    assert_eq!(second.actions, OutputActions::default());
}

#[test]
fn parse_actions_header_in_middle_is_text() {
    let output = PostProcessor::parse_actions("hi <<<VOXTYPE:ENTER>>>", true);
    assert_eq!(output.text, "hi <<<VOXTYPE:ENTER>>>");
    assert!(!output.actions.enter);
}

#[test]
fn new_copies_configuration() {
    let config = PostProcessConfig {
        command: "cat".to_string(),
        timeout_ms: 1234,
        trim: false,
        fallback_on_empty: false,
        enable_control_codes: true,
    };
    let p = PostProcessor::new(&config);
    assert_eq!(p.command(), "cat");
    assert_eq!(p.timeout_ms(), 1234);
    assert!(!p.trim_output());
    assert!(!p.fallback_on_empty());
    assert!(p.actions_enabled());
}

#[test]
fn clean_output_trims_or_strips_newlines() {
    let trimming = PostProcessor::new(&make_config("cat", 10));
    assert_eq!(trimming.clean_output("  hello\n\n"), "hello");
    assert_eq!(trimming.clean_output("   \n  "), "");
    let mut config = make_config("cat", 10);
    config.trim = false;
    let keeping = PostProcessor::new(&config);
    assert_eq!(keeping.clean_output("hello world. \n\n"), "hello world. ");
    assert_eq!(keeping.clean_output("  hello\n"), "  hello");
}

#[test]
fn interpret_reports_failure_and_bad_utf8() {
    let p = PostProcessor::new(&make_config("cat", 10));
    match p.interpret(false, Some(1), "  boom \n", Ok("ignored".to_string())) {
        Err(PostProcessError::NonZeroExit { code, stderr }) => {
            assert_eq!(code, Some(1));
            assert_eq!(stderr, "boom");
        }
        other => panic!("unexpected {:?}", other),
    }
    match p.interpret(true, Some(0), "", Err("invalid utf-8".to_string())) {
        Err(PostProcessError::InvalidUtf8(m)) => assert_eq!(m, "invalid utf-8"),
        other => panic!("unexpected {:?}", other),
    }
    match p.interpret(true, Some(0), "", Ok("prefix:\ntest input\n".to_string())) {
        Ok(t) => assert_eq!(t, "prefix:\ntest input"),
        other => panic!("unexpected {:?}", other),
    }
}

#[test]
fn resolve_output_falls_back_to_original() {
    let p = PostProcessor::new(&make_config("cat", 10));
    let r = p.resolve_output("original text", Err(PostProcessError::Timeout(0)));
    assert_eq!(r.text, "original text");
    let r = p.resolve_output("original text", Ok(String::new()));
    assert_eq!(r.text, "original text");
    let r = p.resolve_output("original text", Ok("HELLO".to_string()));
    assert_eq!(r.text, "HELLO");
}

#[test]
fn resolve_output_without_fallback_returns_empty() {
    let mut config = make_config("cat", 10);
    config.fallback_on_empty = false;
    config.enable_control_codes = true;
    let p = PostProcessor::new(&config);
    let r = p.resolve_output("original text", Ok(String::new()));
    assert_eq!(r.text, "");
    assert_eq!(r.actions, OutputActions::default());
    let r = p.resolve_output("x", Ok("<<<VOXTYPE:ENTER>>>done".to_string()));
    assert_eq!(r.text, "done");
    assert!(r.actions.enter);
}

#[test]
fn error_messages_match_display_text() {
    assert_eq!(
        PostProcessError::SpawnFailed("no such file".into()).message(),
        "failed to spawn command: no such file"
    );
    assert_eq!(
        PostProcessError::WriteFailed("broken pipe".into()).message(),
        "failed to write to stdin: broken pipe"
    );
    assert_eq!(PostProcessError::Timeout(30).message(), "command timed out after 30s");
    assert_eq!(
        PostProcessError::WaitFailed("interrupted".into()).message(),
        "failed to wait for command: interrupted"
    );
    assert_eq!(
        PostProcessError::NonZeroExit { code: Some(2), stderr: String::new() }.message(),
        "command exited with code Some(2)"
    );
    assert_eq!(
        PostProcessError::NonZeroExit { code: None, stderr: "killed".into() }.message(),
        "command exited with code None: killed"
    );
    assert_eq!(
        PostProcessError::NonZeroExit { code: Some(-1), stderr: "oops".into() }.message(),
        "command exited with code Some(-1): oops"
    );
    assert_eq!(
        PostProcessError::InvalidUtf8("invalid utf-8 sequence".into()).message(),
        "output is not valid UTF-8: invalid utf-8 sequence"
    );
}

#[test]
fn timeout_error_reports_whole_seconds() {
    let p = PostProcessor::new(&make_config("cat", 30000));
    assert!(matches!(p.timeout_error(), PostProcessError::Timeout(30)));
    let p = PostProcessor::new(&make_config("cat", 1999));
    assert!(matches!(p.timeout_error(), PostProcessError::Timeout(1)));
    let p = PostProcessor::new(&make_config("cat", 500));
    assert!(matches!(p.timeout_error(), PostProcessError::Timeout(0)));
}
