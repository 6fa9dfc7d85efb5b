use xrandr_control::brightness::set_brightness;
use xrandr_control::process::{set_brightness_args, verbose_args, AppState, ProcessOutput, XrandrError};

fn ok_run() -> Result<ProcessOutput, String> {
    Ok(ProcessOutput { success: true, stdout: "done".to_string(), stderr: String::new() })
}

#[test]
fn confirms_change() {
    let r = set_brightness(&AppState { debug: false }, "eDP-1", "0.5", ok_run());
    assert_eq!(r.result, Ok("Brightness set for eDP-1: 0.5".to_string()));
    assert_eq!(r.echo, None);
}

#[test]
fn debug_echoes_stdout() {
    let r = set_brightness(&AppState { debug: true }, "HDMI-1", "1", ok_run());
    assert_eq!(r.result, Ok("Brightness set for HDMI-1: 1".to_string()));
    assert_eq!(r.echo, Some("done".to_string()));
}

#[test]
fn set_spawn_failure_is_execution_error() {
    let r = set_brightness(&AppState { debug: true }, "eDP-1", "0.5", Err("no xrandr".to_string()));
    assert_eq!(r.result, Err(XrandrError::ExecutionError("no xrandr".to_string())));
    assert_eq!(r.echo, None);
}

#[test]
fn set_failed_run_is_command_error() {
    let run = Ok(ProcessOutput {
        success: false,
        stdout: String::new(),
        stderr: "RANDR extension missing".to_string(),
    });
    let r = set_brightness(&AppState { debug: false }, "eDP-1", "0.5", run);
    assert_eq!(r.result, Err(XrandrError::CommandError("RANDR extension missing".to_string())));
}

#[test]
fn set_arguments() {
    let value = 0.8f32.to_string();
    assert_eq!(
        set_brightness_args("eDP-1", &value),
        vec!["--output".to_string(), "eDP-1".to_string(), "--brightness".to_string(), "0.8".to_string()]
    );
}

#[test]
fn verbose_arguments() {
    assert_eq!(verbose_args(), vec!["--verbose".to_string()]);
}
