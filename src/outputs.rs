use vstd::prelude::*;
use crate::text::{
    chars_of, contains, contains_exec, first_token, first_token_bounds, line_ranges, lines_of,
    pieces, ranges_within,
};
use crate::process::{run_failure, ProcessOutput, XrandrError};

verus! {

/// The text that marks a line of the tool's output as a connected output.
pub open spec fn connected_marker() -> Seq<char> {
    seq![' ', 'c', 'o', 'n', 'n', 'e', 'c', 't', 'e', 'd']
}

/// The first word of each line that holds the connected marker, in order.
pub open spec fn connected_names(lines: Seq<Seq<char>>) -> Seq<Seq<char>>
    decreases lines.len(),
{
    if lines.len() == 0 {
        Seq::empty()
    } else {
        let rest = connected_names(lines.drop_last());
        let l = lines.last();
        if contains(l, connected_marker()) && first_token(l) is Some {
            rest.push(first_token(l)->0)
        } else {
            rest
        }
    }
}

/// The connected marker, as characters.
pub fn connected_marker_exec() -> (r: Vec<char>)
    ensures
        r@ == connected_marker(),
{
    let r = vec![' ', 'c', 'o', 'n', 'n', 'e', 'c', 't', 'e', 'd'];
    assert(r@ =~= connected_marker());
    r
}

/// The names of the connected outputs that a query listed in `stdout`, in
/// the order in which they appear.
pub fn connected_outputs(stdout: &str) -> (r: Vec<String>)
    ensures
        r@.map_values(|n: String| n@) == connected_names(lines_of(stdout@)),
{
    let t = chars_of(stdout);
    let ranges = line_ranges(&t);
    let marker = connected_marker_exec();
    let ghost lines = lines_of(t@);
    let mut r: Vec<String> = Vec::new();
    let mut i: usize = 0;
    while i < ranges.len()
        invariant
            t@ == stdout@,
            marker@ == connected_marker(),
            ranges_within(ranges@, t@.len() as int),
            pieces(t@, ranges@) == lines,
            lines == lines_of(t@),
            i <= ranges@.len(),
            r@.map_values(|n: String| n@) == connected_names(lines.take(i as int)),
        decreases ranges@.len() - i,
    {
        let (lo, hi) = ranges[i];
        assert(ranges@[i as int].0 <= ranges@[i as int].1);
        assert(lines[i as int] == t@.subrange(lo as int, hi as int));
        assert(lines.take(i + 1).drop_last() =~= lines.take(i as int));
        if contains_exec(&t, lo, hi, &marker) {
            if let Some((a, b)) = first_token_bounds(&t, lo, hi) {
                let name = String::from_str(stdout.substring_char(a, b));
                assert(r@.push(name).map_values(|n: String| n@) =~= r@.map_values(
                    |n: String| n@,
                ).push(name@));
                r.push(name);
            }
        }
        i = i + 1;
    }
    assert(lines.take(i as int) =~= lines);
    r
}

/// Lists the connected outputs from a run of the tool with `query_args`.
pub fn get_outputs(run: Result<ProcessOutput, String>) -> (r: Result<Vec<String>, XrandrError>)
    ensures
        run_failure(run) is Some ==> r == Err::<Vec<String>, XrandrError>(run_failure(run)->0),
        run_failure(run) is None ==> r is Ok && r->Ok_0@.map_values(|n: String| n@)
            == connected_names(lines_of(run->Ok_0.stdout@)),
{
    match run {
        Err(e) => Err(XrandrError::ExecutionError(e)),
        Ok(out) => {
            if out.success {
                Ok(connected_outputs(out.stdout.as_str()))
            } else {
                Err(XrandrError::CommandError(out.stderr))
            }
        },
    }
}

} // verus!
