//! The whole run, as one function of what the file system handed back:
//! which lines are written to the primary stream, which diagnostic lines
//! to the error stream, and with which code the process exits.
//!
//! The traversal, the opening and the reading themselves happen outside
//! the library; their recorded outcomes are the inputs here, so the run's
//! behaviour is pinned down for every outcome they can have.

use vstd::prelude::*;

use crate::diag::diagnostic_line;
use crate::diag::fatal_line;
use crate::diag::format_diagnostic;
use crate::diag::format_fatal_diagnostic;
use crate::scan::LineRead;
use crate::scan::matched_lines;
use crate::scan::read_errors;
use crate::scan::scan_lines;
use crate::traversal::CandidateEntry;
use crate::traversal::file_paths;
use crate::traversal::filter_entries;
use crate::traversal::walk_errors;

verus! {

/// What became of one surviving file: the line reads of its scan, or
/// the description of the failure to open it. Exactly one worker owns
/// a file's reads; no outcome is shared or retried.
#[derive(Debug, Clone, PartialEq, Eq)]
pub enum FileOutcome {
    Scanned(Vec<LineRead>),
    OpenError(Vec<u8>),
}

/// What the walk of the root produced: its recorded entries, or the
/// fatal failure to start traversal at all — the one unrecoverable
/// condition of a run.
#[derive(Debug, Clone, PartialEq, Eq)]
pub enum TraversalOutcome {
    Walked(Vec<CandidateEntry>),
    Failed(Vec<u8>),
}

/// The report of one whole run: the primary output lines in the
/// sequential reference order, the formatted diagnostic lines, and the
/// process exit code.
#[derive(Debug, Clone, PartialEq, Eq)]
pub struct RunReport {
    pub output: Vec<Vec<u8>>,
    pub diagnostics: Vec<Vec<u8>>,
    pub exit_code: i32,
}

/// The primary output of a run: each scanned file's matched lines, in
/// file order; a file that could not be opened contributes nothing.
pub open spec fn run_output(files: Seq<FileOutcome>, pat: Seq<u8>) -> Seq<Seq<u8>>
    decreases files.len(),
{
    if files.len() == 0 {
        Seq::empty()
    } else {
        run_output(files.drop_last(), pat) + (match files.last() {
            FileOutcome::Scanned(lines) => matched_lines(lines@, pat),
            FileOutcome::OpenError(_) => Seq::empty(),
        })
    }
}

/// The scan-stage failure descriptions, in file order: for a file that
/// could not be opened its open failure, for a scanned file its read
/// failures.
pub open spec fn scan_errors(files: Seq<FileOutcome>) -> Seq<Seq<u8>>
    decreases files.len(),
{
    if files.len() == 0 {
        Seq::empty()
    } else {
        scan_errors(files.drop_last()) + (match files.last() {
            FileOutcome::Scanned(lines) => read_errors(lines@),
            FileOutcome::OpenError(d) => seq![d@],
        })
    }
}

/// Failure descriptions as the diagnostic lines written for them.
pub open spec fn formatted(descriptions: Seq<Seq<u8>>) -> Seq<Seq<u8>> {
    descriptions.map_values(|d: Seq<u8>| diagnostic_line(d))
}

/// Every diagnostic line of a run that got past startup: the per-entry
/// traversal failures, then the scan-stage failures, each formatted.
pub open spec fn run_diagnostics(entries: Seq<CandidateEntry>, files: Seq<FileOutcome>) -> Seq<
    Seq<u8>,
> {
    formatted(walk_errors(entries) + scan_errors(files))
}

/// One more file extends the run's output by that file's matched lines
/// and nothing else.
pub broadcast proof fn lemma_run_output_push(files: Seq<FileOutcome>, f: FileOutcome, pat: Seq<u8>)
    ensures
        #[trigger] run_output(files.push(f), pat) == run_output(files, pat) + (match f {
            FileOutcome::Scanned(lines) => matched_lines(lines@, pat),
            FileOutcome::OpenError(_) => Seq::<Seq<u8>>::empty(),
        }),
{
    assert(files.push(f).drop_last() =~= files);
}

/// One more file extends the scan-stage failures by that file's own
/// failures and nothing else.
pub broadcast proof fn lemma_scan_errors_push(files: Seq<FileOutcome>, f: FileOutcome)
    ensures
        #[trigger] scan_errors(files.push(f)) == scan_errors(files) + (match f {
            FileOutcome::Scanned(lines) => read_errors(lines@),
            FileOutcome::OpenError(d) => seq![d@],
        }),
{
    assert(files.push(f).drop_last() =~= files);
}

/// The output of two batches of files, scanned one after the other, is
/// the output of the first followed by the output of the second: each
/// file's contribution depends on that file and the pattern alone.
pub proof fn lemma_run_output_concat(a: Seq<FileOutcome>, b: Seq<FileOutcome>, pat: Seq<u8>)
    ensures
        run_output(a + b, pat) == run_output(a, pat) + run_output(b, pat),
    decreases b.len(),
{
    if b.len() == 0 {
        assert(a + b =~= a);
        assert(run_output(a, pat) + run_output(b, pat) =~= run_output(a, pat));
    } else {
        lemma_run_output_concat(a, b.drop_last(), pat);
        assert((a + b).drop_last() =~= a + b.drop_last());
        assert(run_output(a + b, pat) =~= run_output(a, pat) + run_output(b, pat));
    }
}

/// Scan-stage failures accumulate batch by batch in the same way.
pub proof fn lemma_scan_errors_concat(a: Seq<FileOutcome>, b: Seq<FileOutcome>)
    ensures
        scan_errors(a + b) == scan_errors(a) + scan_errors(b),
    decreases b.len(),
{
    if b.len() == 0 {
        assert(a + b =~= a);
        assert(scan_errors(a) + scan_errors(b) =~= scan_errors(a));
    } else {
        lemma_scan_errors_concat(a, b.drop_last());
        assert((a + b).drop_last() =~= a + b.drop_last());
        assert(scan_errors(a + b) =~= scan_errors(a) + scan_errors(b));
    }
}

/// Formatting distributes over concatenation of description lists.
pub broadcast proof fn lemma_formatted_concat(a: Seq<Seq<u8>>, b: Seq<Seq<u8>>)
    ensures
        #[trigger] formatted(a + b) == formatted(a) + formatted(b),
{
    assert(formatted(a + b) =~= formatted(a) + formatted(b));
}

/// Format each failure description and append it to the diagnostic
/// lines, in order.
fn append_formatted(diags: &mut Vec<Vec<u8>>, descriptions: &Vec<Vec<u8>>)
    ensures
        final(diags).deep_view() == old(diags).deep_view() + formatted(descriptions.deep_view()),
{
    let n = descriptions.len();
    let mut i: usize = 0;
    assert(old(diags).deep_view() + formatted(descriptions.deep_view().subrange(0, 0)) =~= old(
        diags,
    ).deep_view());
    while i < n
        invariant
            n == descriptions@.len(),
            i <= n,
            diags.deep_view() == old(diags).deep_view() + formatted(
                descriptions.deep_view().subrange(0, i as int),
            ),
        decreases n - i,
    {
        let ghost dv = descriptions.deep_view();
        let ghost before = diags.deep_view();
        let line = format_diagnostic(&descriptions[i]);
        assert(line.deep_view() =~= line@);
        assert(descriptions@[i as int].deep_view() =~= descriptions@[i as int]@);
        assert(line@ == diagnostic_line(dv[i as int]));
        diags.push(line);
        assert(diags.deep_view() =~= before.push(line@));
        assert(formatted(dv.subrange(0, i + 1)) =~= formatted(dv.subrange(0, i as int)).push(
            diagnostic_line(dv[i as int]),
        ));
        assert(diags.deep_view() =~= old(diags).deep_view() + formatted(dv.subrange(0, i + 1)));
        i = i + 1;
    }
    assert(descriptions.deep_view().subrange(0, n as int) =~= descriptions.deep_view());
}

/// One whole run over a recorded traversal.
///
/// Takes what the walk produced, and — for each path that survived the
/// filter stage, in order — what opening and reading that file
/// produced. A failed walk is the fatal path: nothing was scanned, one
/// fatal diagnostic, exit code 1. Otherwise the output lines are
/// exactly the matched lines of the scanned files, the diagnostics are
/// exactly the formatted non-fatal failures, and the run exits 0
/// whether or not any were logged.
pub fn run_search(root: &TraversalOutcome, files: &Vec<FileOutcome>, pattern: &Vec<u8>) -> (r:
    RunReport)
    requires
        root matches TraversalOutcome::Failed(_) ==> files@.len() == 0,
        root matches TraversalOutcome::Walked(entries) ==> files@.len() == file_paths(
            entries@,
        ).len(),
    ensures
        root matches TraversalOutcome::Failed(d) ==> {
            &&& r.output@.len() == 0
            &&& r.diagnostics.deep_view() == seq![fatal_line(d@)]
            &&& r.exit_code == 1
        },
        root matches TraversalOutcome::Walked(entries) ==> {
            &&& r.output.deep_view() == run_output(files@, pattern@)
            &&& r.diagnostics.deep_view() == run_diagnostics(entries@, files@)
            &&& r.exit_code == 0
        },
{
    match root {
        TraversalOutcome::Failed(d) => {
            let mut diagnostics: Vec<Vec<u8>> = Vec::new();
            let line = format_fatal_diagnostic(d);
            assert(line.deep_view() =~= line@);
            diagnostics.push(line);
            assert(diagnostics.deep_view() =~= seq![fatal_line(d@)]);
            RunReport { output: Vec::new(), diagnostics, exit_code: 1 }
        },
        TraversalOutcome::Walked(entries) => {
            let disc = filter_entries(entries);
            let mut diagnostics: Vec<Vec<u8>> = Vec::new();
            append_formatted(&mut diagnostics, &disc.errors);
            assert(diagnostics.deep_view() =~= formatted(walk_errors(entries@)));
            let mut output: Vec<Vec<u8>> = Vec::new();
            let n = files.len();
            let mut k: usize = 0;
            assert(files@.subrange(0, 0) =~= Seq::<FileOutcome>::empty());
            assert(output.deep_view() =~= run_output(files@.subrange(0, 0), pattern@));
            assert(walk_errors(entries@) + scan_errors(files@.subrange(0, 0)) =~= walk_errors(
                entries@,
            ));
            while k < n
                invariant
                    n == files@.len(),
                    k <= n,
                    output.deep_view() == run_output(files@.subrange(0, k as int), pattern@),
                    diagnostics.deep_view() == formatted(
                        walk_errors(entries@) + scan_errors(files@.subrange(0, k as int)),
                    ),
                decreases n - k,
            {
                let ghost fprefix = files@.subrange(0, k as int);
                let ghost dprefix = walk_errors(entries@) + scan_errors(fprefix);
                match &files[k] {
                    FileOutcome::Scanned(lines) => {
                        let sc = scan_lines(lines, pattern);
                        let mut more = sc.matched;
                        let ghost more_view = more.deep_view();
                        output.append(&mut more);
                        assert(output.deep_view() =~= run_output(fprefix, pattern@) + more_view);
                        append_formatted(&mut diagnostics, &sc.errors);
                        proof {
                            lemma_formatted_concat(dprefix, read_errors(lines@));
                            assert(dprefix + read_errors(lines@) =~= walk_errors(entries@) + (
                            scan_errors(fprefix) + read_errors(lines@)));
                        }
                    },
                    FileOutcome::OpenError(d) => {
                        let line = format_diagnostic(d);
                        assert(line.deep_view() =~= line@);
                        diagnostics.push(line);
                        proof {
                            lemma_formatted_concat(dprefix, seq![d@]);
                            assert(diagnostics.deep_view() =~= formatted(dprefix) + formatted(
                                seq![d@],
                            ));
                            assert(dprefix + seq![d@] =~= walk_errors(entries@) + (scan_errors(
                                fprefix,
                            ) + seq![d@]));
                        }
                    },
                }
                proof {
                    lemma_run_output_push(fprefix, files@[k as int], pattern@);
                    lemma_scan_errors_push(fprefix, files@[k as int]);
                    assert(files@.subrange(0, k + 1) =~= fprefix.push(files@[k as int]));
                }
                k = k + 1;
            }
            assert(files@.subrange(0, n as int) =~= files@);
            RunReport { output, diagnostics, exit_code: 0 }
        },
    }
}

} // verus!
