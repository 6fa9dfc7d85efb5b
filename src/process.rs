use vstd::prelude::*;

verus! {

/// The display-configuration tool that every operation runs.
pub const TOOL: &'static str = "xrandr";

/// Settings fixed when the application starts.
pub struct AppState {
    /// Echo what a successful brightness change printed.
    pub debug: bool,
}

/// What a finished run of the tool left behind.
pub struct ProcessOutput {
    /// The tool exited with a success status.
    pub success: bool,
    /// Its standard output, as text.
    pub stdout: String,
    /// Its standard error, as text.
    pub stderr: String,
}

/// Why an operation failed.
#[derive(Clone, Debug, PartialEq, Eq)]
pub enum XrandrError {
    /// The tool could not be started; the reason the system gave.
    ExecutionError(String),
    /// The tool ran and reported failure; what it wrote to standard error.
    CommandError(String),
    /// A brightness field held text that is not a number; that text.
    ParseError(String),
    /// The requested output, or its brightness, is absent; the output's name.
    NotFound(String),
}

/// The result of an operation whose run could not start or did not succeed.
pub open spec fn run_failure(run: Result<ProcessOutput, String>) -> Option<XrandrError> {
    match run {
        Err(e) => Some(XrandrError::ExecutionError(e)),
        Ok(out) => if out.success {
            None
        } else {
            Some(XrandrError::CommandError(out.stderr))
        },
    }
}

/// Arguments that list the outputs and their modes.
pub fn query_args() -> (r: Vec<String>)
    ensures
        r@.map_values(|a: String| a@) == seq!["--query"@],
{
    let r = vec![String::from_str("--query")];
    assert(r@.map_values(|a: String| a@) =~= seq!["--query"@]);
    r
}

/// Arguments that list every output with all of its properties.
pub fn verbose_args() -> (r: Vec<String>)
    ensures
        r@.map_values(|a: String| a@) == seq!["--verbose"@],
{
    let r = vec![String::from_str("--verbose")];
    assert(r@.map_values(|a: String| a@) =~= seq!["--verbose"@]);
    r
}

/// Arguments that set the brightness of `output` to the decimal text `value`.
pub fn set_brightness_args(output: &str, value: &str) -> (r: Vec<String>)
    ensures
        r@.map_values(|a: String| a@) == seq!["--output"@, output@, "--brightness"@, value@],
{
    let r = vec![
        String::from_str("--output"),
        String::from_str(output),
        String::from_str("--brightness"),
        String::from_str(value),
    ];
    assert(r@.map_values(|a: String| a@) =~= seq![
        "--output"@,
        output@,
        "--brightness"@,
        value@,
    ]);
    r
}

} // verus!
