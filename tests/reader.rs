use xrandr_control::brightness::{get_brightness_text, parse_brightness};
use xrandr_control::process::{ProcessOutput, XrandrError};

fn ran(stdout: &str) -> Result<ProcessOutput, String> {
    Ok(ProcessOutput { success: true, stdout: stdout.to_string(), stderr: String::new() })
}

fn read(stdout: &str, output: &str) -> Result<f32, XrandrError> {
    let text = get_brightness_text(output, ran(stdout))?;
    let parsed = text.parse::<f32>().ok();
    parse_brightness(text, parsed)
}

const LISTING: &str = "eDP-1 connected primary 1920x1080+0+0\n  Brightness: 0.80\nHDMI-1 connected\n  Brightness: 1.00\n";

#[test]
fn reads_first_output() {
    assert_eq!(read(LISTING, "eDP-1"), Ok(0.80f32));
}

#[test]
fn reads_second_output() {
    assert_eq!(read(LISTING, "HDMI-1"), Ok(1.00f32));
}

#[test]
fn absent_output_is_not_found() {
    assert_eq!(read(LISTING, "DP-1"), Err(XrandrError::NotFound("DP-1".to_string())));
}

#[test]
fn value_text_is_trimmed() {
    assert_eq!(get_brightness_text("eDP-1", ran(LISTING)), Ok("0.80".to_string()));
}

#[test]
fn header_without_field_is_not_found() {
    let listing = "eDP-1 connected\n  Gamma: 1.0:1.0:1.0\nHDMI-1 connected\n  Brightness: 0.50\n";
    assert_eq!(read(listing, "eDP-1"), Err(XrandrError::NotFound("eDP-1".to_string())));
    assert_eq!(read(listing, "HDMI-1"), Ok(0.5f32));
}

#[test]
fn field_after_disconnected_block_is_not_taken() {
    let listing = "eDP-1 connected\nVGA-1 disconnected\n  Brightness: 0.30\n";
    assert_eq!(read(listing, "eDP-1"), Err(XrandrError::NotFound("eDP-1".to_string())));
}

#[test]
fn disconnected_header_does_not_match() {
    let listing = "VGA-1 disconnected\n  Brightness: 0.30\n";
    assert_eq!(read(listing, "VGA-1"), Err(XrandrError::NotFound("VGA-1".to_string())));
}

#[test]
fn empty_listing_is_not_found() {
    assert_eq!(read("", "eDP-1"), Err(XrandrError::NotFound("eDP-1".to_string())));
}

#[test]
fn malformed_value_is_parse_error() {
    let listing = "eDP-1 connected\n  Brightness: abc\n";
    assert_eq!(read(listing, "eDP-1"), Err(XrandrError::ParseError("abc".to_string())));
}

#[test]
fn empty_value_is_parse_error() {
    let listing = "eDP-1 connected\n  Brightness:   \n";
    assert_eq!(read(listing, "eDP-1"), Err(XrandrError::ParseError(String::new())));
}

#[test]
fn value_is_all_text_after_the_colon() {
    let listing = "eDP-1 connected\n  Brightness: 1:2\n";
    assert_eq!(get_brightness_text("eDP-1", ran(listing)), Ok("1:2".to_string()));
}

#[test]
fn name_is_matched_as_a_prefix() {
    let listing = "DP-10 connected\n  Brightness: 0.25\n";
    assert_eq!(read(listing, "DP-1"), Ok(0.25f32));
}

#[test]
fn later_header_of_same_prefix_is_scanned() {
    let listing = "DP-1 connected\nDP-2 connected\n  Brightness: 0.40\n";
    assert_eq!(read(listing, "DP"), Ok(0.4f32));
}

#[test]
fn crlf_lines_are_read() {
    let listing = "eDP-1 connected\r\n\tBrightness: 0.75\r\n";
    assert_eq!(read(listing, "eDP-1"), Ok(0.75f32));
}

#[test]
fn other_fields_are_skipped() {
    let listing = "Screen 0: minimum 8 x 8\neDP-1 connected primary\n\tIdentifier: 0x42\n\tEDID:\n\t\t00ffffffffffff00\n\tBrightness: 0.90\n";
    assert_eq!(read(listing, "eDP-1"), Ok(0.9f32));
}

#[test]
fn spawn_failure_is_execution_error() {
    let r = get_brightness_text("eDP-1", Err("No such file or directory (os error 2)".to_string()));
    assert_eq!(r, Err(XrandrError::ExecutionError("No such file or directory (os error 2)".to_string())));
}

#[test]
fn failed_run_is_command_error() {
    let run = Ok(ProcessOutput {
        success: false,
        stdout: LISTING.to_string(),
        stderr: "RANDR extension missing".to_string(),
    });
    assert_eq!(
        get_brightness_text("eDP-1", run),
        Err(XrandrError::CommandError("RANDR extension missing".to_string()))
    );
}

#[test]
fn parsed_value_is_returned() {
    assert_eq!(parse_brightness("0.5".to_string(), Some(0.5f32)), Ok(0.5f32));
    assert_eq!(
        parse_brightness::<f32>("x".to_string(), None),
        Err(XrandrError::ParseError("x".to_string()))
    );
}
