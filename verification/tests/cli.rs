use twig::cli::{plan_output, width_text, OutputPlan, OutputStyle};
use twig::shell::ShellMode;

#[test]
fn test_plan_output_modes() {
    assert_eq!(
        plan_output(Some("tcsh"), false, false),
        Ok(OutputPlan { mode: ShellMode::Tcsh, style: OutputStyle::Prompt })
    );
    assert_eq!(
        plan_output(Some("bash"), true, false),
        Ok(OutputPlan { mode: ShellMode::Bash, style: OutputStyle::Prompt })
    );
    assert_eq!(
        plan_output(Some("zsh"), false, true),
        Ok(OutputPlan { mode: ShellMode::Zsh, style: OutputStyle::DebugThenPrompt })
    );
    assert_eq!(
        plan_output(None, true, true),
        Ok(OutputPlan { mode: ShellMode::Raw, style: OutputStyle::Prompt })
    );
    assert_eq!(
        plan_output(None, false, true),
        Ok(OutputPlan { mode: ShellMode::Raw, style: OutputStyle::Boxed })
    );
}

#[test]
fn test_plan_output_unknown_mode() {
    assert_eq!(
        plan_output(Some("fish"), false, false),
        Err("Unknown shell mode: fish. Valid options: tcsh, bash, zsh".to_string())
    );
    assert_eq!(
        plan_output(Some("TCSH"), false, false),
        Err("Unknown shell mode: TCSH. Valid options: tcsh, bash, zsh".to_string())
    );
}

#[test]
fn test_width_text() {
    assert_eq!(width_text(Some(120)), "120");
    assert_eq!(width_text(Some(0)), "0");
    assert_eq!(width_text(None), "N/A");
}
