use vstd::prelude::*;
use crate::text::{
    chars_of, contains, contains_exec, line_ranges, lines_of, pieces, ranges_within, starts_with,
    starts_with_exec, trim, trim_bounds,
};
use crate::outputs::{connected_marker, connected_marker_exec};
use crate::process::{run_failure, AppState, ProcessOutput, XrandrError};

verus! {

/// The text that marks a line as an output that is not connected.
pub open spec fn disconnected_marker() -> Seq<char> {
    seq![' ', 'd', 'i', 's', 'c', 'o', 'n', 'n', 'e', 'c', 't', 'e', 'd']
}

/// The label that opens a brightness field.
pub open spec fn brightness_label() -> Seq<char> {
    seq!['B', 'r', 'i', 'g', 'h', 't', 'n', 'e', 's', 's', ':']
}

/// `l` opens the block of output `o`: trimmed, it begins with the name, and
/// it holds the connected marker.
pub open spec fn is_header(l: Seq<char>, o: Seq<char>) -> bool {
    starts_with(trim(l), o) && contains(l, connected_marker())
}

/// `l` opens the block of some output, connected or not.
pub open spec fn is_boundary(l: Seq<char>) -> bool {
    contains(trim(l), connected_marker()) || contains(trim(l), disconnected_marker())
}

/// `l`, trimmed, is a brightness field.
pub open spec fn is_field(l: Seq<char>) -> bool {
    starts_with(trim(l), brightness_label())
}

/// The value text of a brightness field: what follows its colon, trimmed.
pub open spec fn field_value(l: Seq<char>) -> Seq<char> {
    trim(trim(l).skip(brightness_label().len() as int))
}

/// The scan for the brightness of output `o`, at line `i`; `in_block` tells
/// whether the lines since the last header of `o` are still its block.
pub open spec fn scan_from(lines: Seq<Seq<char>>, o: Seq<char>, i: int, in_block: bool) -> Option<
    Seq<char>,
>
    decreases lines.len() - i,
{
    if i < 0 || i >= lines.len() {
        None
    } else if in_block && is_boundary(lines[i]) {
        scan_from(lines, o, i + 1, is_header(lines[i], o))
    } else if in_block && is_field(lines[i]) {
        Some(field_value(lines[i]))
    } else if in_block {
        scan_from(lines, o, i + 1, true)
    } else {
        scan_from(lines, o, i + 1, is_header(lines[i], o))
    }
}

/// The value text of the brightness field of output `o` in the verbose
/// listing `lines`: the first field found in the block of a header of `o`,
/// before the next output's block begins.
pub open spec fn brightness_text(lines: Seq<Seq<char>>, o: Seq<char>) -> Option<Seq<char>> {
    scan_from(lines, o, 0, false)
}

/// Outside any block, a scan over lines none of which is a header of `o`
/// finds nothing.
proof fn lemma_scan_without_header(lines: Seq<Seq<char>>, o: Seq<char>, i: int)
    requires
        0 <= i,
        forall|k: int| i <= k < lines.len() ==> !is_header(#[trigger] lines[k], o),
    ensures
        scan_from(lines, o, i, false) is None,
    decreases lines.len() - i,
{
    if i < lines.len() {
        lemma_scan_without_header(lines, o, i + 1);
    }
}

/// A listing with no header of output `o` has no brightness for it.
pub proof fn lemma_no_header_not_found(lines: Seq<Seq<char>>, o: Seq<char>)
    requires
        forall|k: int| 0 <= k < lines.len() ==> !is_header(#[trigger] lines[k], o),
    ensures
        brightness_text(lines, o) is None,
{
    lemma_scan_without_header(lines, o, 0);
}

/// No header of `o` has a brightness field in its block.
pub open spec fn no_field_in_blocks(lines: Seq<Seq<char>>, o: Seq<char>) -> bool {
    forall|h: int, j: int|
        0 <= h < j < lines.len() && is_header(#[trigger] lines[h], o) && is_field(
            #[trigger] lines[j],
        ) ==> exists|k: int| h < k <= j && is_boundary(#[trigger] lines[k])
}

/// Where no block of `o` holds a field, the scan finds none from line `i`;
/// `h` is the header whose block the scan is in, if it is in one.
proof fn lemma_scan_without_field(
    lines: Seq<Seq<char>>,
    o: Seq<char>,
    i: int,
    in_block: bool,
    h: int,
)
    requires
        0 <= i,
        no_field_in_blocks(lines, o),
        in_block ==> 0 <= h < i && is_header(lines[h], o) && forall|k: int|
            h < k < i ==> !is_boundary(#[trigger] lines[k]),
    ensures
        scan_from(lines, o, i, in_block) is None,
    decreases lines.len() - i,
{
    if i < lines.len() {
        if in_block && is_boundary(lines[i]) {
            lemma_scan_without_field(lines, o, i + 1, is_header(lines[i], o), i);
        } else if in_block && is_field(lines[i]) {
            let k = choose|k: int| h < k <= i && is_boundary(#[trigger] lines[k]);
            assert(k < i && !is_boundary(lines[k]));
        } else if in_block {
            lemma_scan_without_field(lines, o, i + 1, true, h);
        } else {
            lemma_scan_without_field(lines, o, i + 1, is_header(lines[i], o), i);
        }
    }
}

/// Where every header of output `o` is followed by the next output's block
/// before any brightness field, there is no brightness for `o`.
pub proof fn lemma_header_without_field_not_found(lines: Seq<Seq<char>>, o: Seq<char>)
    requires
        no_field_in_blocks(lines, o),
    ensures
        brightness_text(lines, o) is None,
{
    lemma_scan_without_field(lines, o, 0, false, 0);
}

/// Inside the block of a header, the scan reaches the first line of the
/// block that is a field, and reads its value.
proof fn lemma_scan_in_block(lines: Seq<Seq<char>>, o: Seq<char>, i: int, j: int)
    requires
        0 <= i <= j < lines.len(),
        forall|k: int| i <= k < j ==> !is_boundary(#[trigger] lines[k]) && !is_field(lines[k]),
        is_field(lines[j]),
        !is_boundary(lines[j]),
    ensures
        scan_from(lines, o, i, true) == Some(field_value(lines[j])),
    decreases j - i,
{
    if i < j {
        lemma_scan_in_block(lines, o, i + 1, j);
    }
}

/// Outside any block, a scan that meets no header of `o` before line `i`
/// arrives at line `i` outside any block.
proof fn lemma_scan_reaches(lines: Seq<Seq<char>>, o: Seq<char>, k: int, i: int)
    requires
        0 <= k <= i < lines.len(),
        forall|m: int| k <= m < i ==> !is_header(#[trigger] lines[m], o),
    ensures
        scan_from(lines, o, k, false) == scan_from(lines, o, i, false),
    decreases i - k,
{
    if k < i {
        lemma_scan_reaches(lines, o, k + 1, i);
    }
}

/// Where line `h` is the first header of output `o` and line `j` the first
/// brightness field after it, with no other output's block in between, the
/// brightness of `o` is the value of that field.
pub proof fn lemma_field_after_header(lines: Seq<Seq<char>>, o: Seq<char>, h: int, j: int)
    requires
        0 <= h < j < lines.len(),
        is_header(lines[h], o),
        forall|k: int| 0 <= k < h ==> !is_header(#[trigger] lines[k], o),
        forall|k: int| h < k < j ==> !is_boundary(#[trigger] lines[k]) && !is_field(lines[k]),
        is_field(lines[j]),
        !is_boundary(lines[j]),
    ensures
        brightness_text(lines, o) == Some(field_value(lines[j])),
{
    lemma_scan_reaches(lines, o, 0, h);
    lemma_scan_in_block(lines, o, h + 1, j);
}

/// The disconnected marker, as characters.
fn disconnected_marker_exec() -> (r: Vec<char>)
    ensures
        r@ == disconnected_marker(),
{
    let r = vec![' ', 'd', 'i', 's', 'c', 'o', 'n', 'n', 'e', 'c', 't', 'e', 'd'];
    assert(r@ =~= disconnected_marker());
    r
}

/// The brightness label, as characters.
fn brightness_label_exec() -> (r: Vec<char>)
    ensures
        r@ == brightness_label(),
{
    let r = vec!['B', 'r', 'i', 'g', 'h', 't', 'n', 'e', 's', 's', ':'];
    assert(r@ =~= brightness_label());
    r
}

/// The value text of the brightness field of `output` in the verbose
/// listing `stdout`, if there is one.
pub fn find_brightness(stdout: &str, output: &str) -> (r: Option<String>)
    ensures
        match r {
            None => brightness_text(lines_of(stdout@), output@) is None,
            Some(v) => brightness_text(lines_of(stdout@), output@) == Some(v@),
        },
{
    let t = chars_of(stdout);
    let o = chars_of(output);
    let ranges = line_ranges(&t);
    let connected = connected_marker_exec();
    let disconnected = disconnected_marker_exec();
    let label = brightness_label_exec();
    let ghost lines = lines_of(t@);
    let mut in_block = false;
    let mut i: usize = 0;
    while i < ranges.len()
        invariant
            t@ == stdout@,
            o@ == output@,
            connected@ == connected_marker(),
            disconnected@ == disconnected_marker(),
            label@ == brightness_label(),
            ranges_within(ranges@, t@.len() as int),
            pieces(t@, ranges@) == lines,
            lines == lines_of(t@),
            i <= ranges@.len(),
            scan_from(lines, o@, i as int, in_block) == brightness_text(lines, o@),
        decreases ranges@.len() - i,
    {
        let (lo, hi) = ranges[i];
        assert(ranges@[i as int].0 <= ranges@[i as int].1);
        let ghost l = t@.subrange(lo as int, hi as int);
        assert(lines[i as int] == l);
        let (a, b) = trim_bounds(&t, lo, hi);
        assert(t@.subrange(a as int, b as int) == trim(l));
        let boundary = contains_exec(&t, a, b, &connected) || contains_exec(
            &t,
            a,
            b,
            &disconnected,
        );
        if in_block && !boundary && starts_with_exec(&t, a, b, &label) {
            let (c, d) = trim_bounds(&t, a + label.len(), b);
            assert(t@.subrange(a + label@.len(), b as int) =~= trim(l).skip(label@.len() as int));
            let v = String::from_str(stdout.substring_char(c, d));
            return Some(v);
        }
        if !in_block || boundary {
            in_block = starts_with_exec(&t, a, b, &o) && contains_exec(&t, lo, hi, &connected);
        }
        i = i + 1;
    }
    None
}

/// The value text of the brightness field of `output`, from a run of the
/// tool with `verbose_args`. It is still to be read as a number, which
/// `parse_brightness` finishes.
pub fn get_brightness_text(output: &str, run: Result<ProcessOutput, String>) -> (r: Result<
    String,
    XrandrError,
>)
    ensures
        run_failure(run) is Some ==> r == Err::<String, XrandrError>(run_failure(run)->0),
        run_failure(run) is None ==> match brightness_text(lines_of(run->Ok_0.stdout@), output@) {
            None => r is Err && r->Err_0 is NotFound && r->Err_0->NotFound_0@ == output@,
            Some(v) => r is Ok && r->Ok_0@ == v,
        },
{
    match run {
        Err(e) => Err(XrandrError::ExecutionError(e)),
        Ok(out) => {
            if !out.success {
                return Err(XrandrError::CommandError(out.stderr));
            }
            match find_brightness(out.stdout.as_str(), output) {
                Some(v) => Ok(v),
                None => Err(XrandrError::NotFound(String::from_str(output))),
            }
        },
    }
}

/// The brightness, given the value text of the field and the number read
/// from it (`None` where the text is not a number): malformed text is an
/// error, never a default value.
pub fn parse_brightness<T>(text: String, parsed: Option<T>) -> (r: Result<T, XrandrError>)
    ensures
        parsed is None ==> r == Err::<T, XrandrError>(XrandrError::ParseError(text)),
        parsed is Some ==> r == Ok::<T, XrandrError>(parsed->0),
{
    match parsed {
        Some(v) => Ok(v),
        None => Err(XrandrError::ParseError(text)),
    }
}

/// The confirmation of a brightness change.
pub open spec fn confirmation(output: Seq<char>, value: Seq<char>) -> Seq<char> {
    "Brightness set for "@ + output + ": "@ + value
}

/// What a brightness change came to.
pub struct SetOutcome {
    /// The confirmation, or why the change failed.
    pub result: Result<String, XrandrError>,
    /// What the tool printed, where debugging asks for it to be echoed.
    pub echo: Option<String>,
}

/// The outcome of setting the brightness of `output` to the decimal text
/// `value`, from a run of the tool with `set_brightness_args(output, value)`.
pub fn set_brightness(app_state: &AppState, output: &str, value: &str, run: Result<
    ProcessOutput,
    String,
>) -> (r: SetOutcome)
    ensures
        run_failure(run) is Some ==> r.result == Err::<String, XrandrError>(run_failure(run)->0)
            && r.echo is None,
        run_failure(run) is None ==> r.result is Ok && r.result->Ok_0@ == confirmation(
            output@,
            value@,
        ) && (r.echo is Some <==> app_state.debug) && (app_state.debug ==> r.echo->0
            == run->Ok_0.stdout),
{
    match run {
        Err(e) => SetOutcome { result: Err(XrandrError::ExecutionError(e)), echo: None },
        Ok(out) => {
            if !out.success {
                return SetOutcome { result: Err(XrandrError::CommandError(out.stderr)), echo: None };
            }
            let msg = String::from_str("Brightness set for ").concat(output).concat(": ").concat(
                value,
            );
            let echo = if app_state.debug {
                Some(out.stdout)
            } else {
                None
            };
            SetOutcome { result: Ok(msg), echo }
        },
    }
}

} // verus!
