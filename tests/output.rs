use whitenoise_cli::output::{exit_code, format_output, CommandResult, OutputFormat, Rendering};

#[test]
fn envelope_invariant() {
    let ok = CommandResult::success(5u32);
    assert!(ok.success);
    assert_eq!(ok.data, Some(5));
    assert!(ok.error.is_none());
    assert!(ok.timestamp.seconds > 1_600_000_000);
    let err: CommandResult<u32> = CommandResult::error("boom".to_string());
    assert!(!err.success);
    assert!(err.data.is_none());
    assert_eq!(err.error.as_deref(), Some("boom"));
}

#[test]
fn human_mode_renders_payload_or_error_line() {
    let ok = CommandResult::success("x".to_string());
    assert_eq!(format_output(OutputFormat::Human, &ok), Rendering::DataOnly);
    let err: CommandResult<String> = CommandResult::error("No account logged in".to_string());
    assert_eq!(
        format_output(OutputFormat::Human, &err),
        Rendering::Line("Error: No account logged in".to_string())
    );
    let mut empty: CommandResult<String> = CommandResult::success(String::new());
    empty.data = None;
    assert_eq!(
        format_output(OutputFormat::Human, &empty),
        Rendering::Line("Operation completed successfully".to_string())
    );
    let mut bare: CommandResult<String> = CommandResult::error(String::new());
    bare.error = None;
    assert_eq!(format_output(OutputFormat::Human, &bare), Rendering::Line("Error: Unknown error".to_string()));
}

#[test]
fn json_and_yaml_render_the_envelope() {
    let err: CommandResult<String> = CommandResult::error("e".to_string());
    assert_eq!(format_output(OutputFormat::Json, &err), Rendering::WholeEnvelope);
    assert_eq!(format_output(OutputFormat::Yaml, &err), Rendering::WholeEnvelope);
}

#[test]
fn exit_codes() {
    assert_eq!(exit_code(true), 0);
    assert_eq!(exit_code(false), 1);
}
