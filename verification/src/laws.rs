//! The laws of the scan pipeline, stated over the run model and proved
//! once for all inputs.

use vstd::prelude::*;

use crate::matching::contains_pattern;
use crate::pipeline::FileOutcome;
use crate::pipeline::lemma_run_output_concat;
use crate::pipeline::lemma_scan_errors_concat;
use crate::pipeline::run_diagnostics;
use crate::pipeline::run_output;
use crate::pipeline::scan_errors;
use crate::pipeline::formatted;
use crate::scan::LineRead;
use crate::scan::lemma_matched_lines_concat;
use crate::scan::lemma_matched_lines_push;
use crate::scan::lemma_read_errors_concat;
use crate::scan::lemma_read_errors_push;
use crate::scan::matched_lines;
use crate::scan::read_errors;
use crate::traversal::CandidateEntry;
use crate::traversal::file_paths;
use crate::traversal::lemma_file_paths_concat;
use crate::traversal::lemma_file_paths_push;
use crate::traversal::lemma_walk_errors_concat;
use crate::traversal::lemma_walk_errors_push;
use crate::traversal::walk_errors;

verus! {

/// How often a text occurs among the successfully read lines of a file.
pub open spec fn line_occurrences(lines: Seq<LineRead>, t: Seq<u8>) -> nat
    decreases lines.len(),
{
    if lines.len() == 0 {
        0
    } else {
        line_occurrences(lines.drop_last(), t) + (match lines.last() {
            LineRead::Line(x) => if x@ == t {
                1nat
            } else {
                0nat
            },
            LineRead::ReadError(_) => 0nat,
        })
    }
}

/// A line that holds the pattern is reported verbatim, exactly once per
/// occurrence among the file's successfully read lines; a line that
/// does not hold it is never reported.
pub proof fn lemma_verbatim_exactly_once(lines: Seq<LineRead>, pat: Seq<u8>, t: Seq<u8>)
    ensures
        matched_lines(lines, pat).to_multiset().count(t) == (if contains_pattern(t, pat) {
            line_occurrences(lines, t)
        } else {
            0nat
        }),
    decreases lines.len(),
{
    broadcast use vstd::seq_lib::group_to_multiset_ensures;
    broadcast use vstd::multiset::group_multiset_axioms;

    if lines.len() == 0 {
        assert(!matched_lines(lines, pat).contains(t));
    } else {
        let rest = lines.drop_last();
        lemma_verbatim_exactly_once(rest, pat, t);
        match lines.last() {
            LineRead::Line(x) => {
                if contains_pattern(x@, pat) {
                    assert(matched_lines(lines, pat) == matched_lines(rest, pat).push(x@));
                    assert(matched_lines(rest, pat).push(x@).to_multiset() =~= matched_lines(
                        rest,
                        pat,
                    ).to_multiset().insert(x@));
                }
            },
            LineRead::ReadError(_) => {},
        }
    }
}

/// How often a text occurs among the successfully read lines of all
/// scanned files of a run.
pub open spec fn run_occurrences(files: Seq<FileOutcome>, t: Seq<u8>) -> nat
    decreases files.len(),
{
    if files.len() == 0 {
        0
    } else {
        run_occurrences(files.drop_last(), t) + (match files.last() {
            FileOutcome::Scanned(lines) => line_occurrences(lines@, t),
            FileOutcome::OpenError(_) => 0nat,
        })
    }
}

/// Across a whole run: a line that holds the pattern appears in the
/// output exactly once per occurrence among the scanned files' lines,
/// verbatim; a line that does not hold it never appears.
pub proof fn lemma_run_verbatim_exactly_once(files: Seq<FileOutcome>, pat: Seq<u8>, t: Seq<u8>)
    ensures
        run_output(files, pat).to_multiset().count(t) == (if contains_pattern(t, pat) {
            run_occurrences(files, t)
        } else {
            0nat
        }),
    decreases files.len(),
{
    broadcast use vstd::seq_lib::group_to_multiset_ensures;
    broadcast use vstd::multiset::group_multiset_axioms;

    if files.len() == 0 {
        assert(!run_output(files, pat).contains(t));
    } else {
        let rest = files.drop_last();
        lemma_run_verbatim_exactly_once(rest, pat, t);
        match files.last() {
            FileOutcome::Scanned(lines) => {
                lemma_verbatim_exactly_once(lines@, pat, t);
                vstd::seq_lib::lemma_multiset_commutative(
                    run_output(rest, pat),
                    matched_lines(lines@, pat),
                );
            },
            FileOutcome::OpenError(_) => {
                assert(run_output(rest, pat) + Seq::<Seq<u8>>::empty() =~= run_output(rest, pat));
            },
        }
    }
}

/// A file none of whose lines holds the pattern contributes no output
/// line at all.
pub proof fn lemma_no_match_no_output(lines: Seq<LineRead>, pat: Seq<u8>)
    requires
        forall|i: int|
            0 <= i < lines.len() ==> match #[trigger] lines[i] {
                LineRead::Line(t) => !contains_pattern(t@, pat),
                LineRead::ReadError(_) => true,
            },
    ensures
        matched_lines(lines, pat) == Seq::<Seq<u8>>::empty(),
    decreases lines.len(),
{
    if lines.len() > 0 {
        assert(lines[lines.len() - 1] == lines.last());
        lemma_no_match_no_output(lines.drop_last(), pat);
    }
}

/// Running twice against an unmodified tree is idempotent: two walks
/// that record the same outcomes produce the same multiset of output
/// lines, however each run's workers interleave them.
pub proof fn lemma_rerun_same_output(
    first: Seq<FileOutcome>,
    second: Seq<FileOutcome>,
    pat: Seq<u8>,
)
    requires
        first == second,
    ensures
        run_output(first, pat).to_multiset() == run_output(second, pat).to_multiset(),
{
}

/// A traversal failure injected anywhere into a walk never changes
/// which files are scanned — so the matches from every other file are
/// untouched — and costs exactly one more diagnostic.
pub proof fn lemma_walk_error_inert(entries: Seq<CandidateEntry>, k: int, d: Vec<u8>)
    requires
        0 <= k <= entries.len(),
    ensures
        file_paths(entries.insert(k, CandidateEntry::TraversalError(d))) == file_paths(entries),
        walk_errors(entries.insert(k, CandidateEntry::TraversalError(d))).len() == walk_errors(
            entries,
        ).len() + 1,
{
    let e = CandidateEntry::TraversalError(d);
    let pre = entries.subrange(0, k);
    let suf = entries.subrange(k, entries.len() as int);
    assert(entries =~= pre + suf);
    lemma_file_paths_concat(pre.push(e), suf);
    lemma_file_paths_concat(pre, suf);
    lemma_file_paths_push(pre, e);
    lemma_walk_errors_concat(pre.push(e), suf);
    lemma_walk_errors_concat(pre, suf);
    lemma_walk_errors_push(pre, e);
    assert(file_paths(entries.insert(k, e)) =~= file_paths(entries));
}

/// A file that cannot be opened, wherever it turns up among the
/// surviving files, contributes no output line — the matches from every
/// other file are untouched — and costs exactly one more diagnostic.
pub proof fn lemma_open_error_inert(files: Seq<FileOutcome>, k: int, d: Vec<u8>, pat: Seq<u8>)
    requires
        0 <= k <= files.len(),
    ensures
        run_output(files.insert(k, FileOutcome::OpenError(d)), pat) == run_output(files, pat),
        scan_errors(files.insert(k, FileOutcome::OpenError(d))).len() == scan_errors(files).len()
            + 1,
{
    let f = FileOutcome::OpenError(d);
    let pre = files.subrange(0, k);
    let suf = files.subrange(k, files.len() as int);
    assert(files =~= pre + suf);
    lemma_run_output_concat(pre.push(f), suf, pat);
    lemma_run_output_concat(pre, suf, pat);
    crate::pipeline::lemma_run_output_push(pre, f, pat);
    lemma_scan_errors_concat(pre.push(f), suf);
    lemma_scan_errors_concat(pre, suf);
    crate::pipeline::lemma_scan_errors_push(pre, f);
    assert(run_output(pre, pat) + Seq::<Seq<u8>>::empty() =~= run_output(pre, pat));
    assert(run_output(files.insert(k, f), pat) =~= run_output(files, pat));
}

/// A line that cannot be read, wherever it turns up in a file, changes
/// no reported line of that file and costs exactly one more diagnostic;
/// the rest of the file is still scanned.
pub proof fn lemma_read_error_inert(lines: Seq<LineRead>, k: int, d: Vec<u8>, pat: Seq<u8>)
    requires
        0 <= k <= lines.len(),
    ensures
        matched_lines(lines.insert(k, LineRead::ReadError(d)), pat) == matched_lines(lines, pat),
        read_errors(lines.insert(k, LineRead::ReadError(d))).len() == read_errors(lines).len()
            + 1,
{
    let l = LineRead::ReadError(d);
    let pre = lines.subrange(0, k);
    let suf = lines.subrange(k, lines.len() as int);
    assert(lines =~= pre + suf);
    lemma_matched_lines_concat(pre.push(l), suf, pat);
    lemma_matched_lines_concat(pre, suf, pat);
    lemma_matched_lines_push(pre, l, pat);
    lemma_read_errors_concat(pre.push(l), suf);
    lemma_read_errors_concat(pre, suf);
    lemma_read_errors_push(pre, l);
    assert(matched_lines(lines.insert(k, l), pat) =~= matched_lines(lines, pat));
}

/// An empty walk yields nothing: no surviving file, no output line, no
/// diagnostic.
pub proof fn lemma_empty_root_yields_nothing(pat: Seq<u8>)
    ensures
        file_paths(Seq::<CandidateEntry>::empty()) == Seq::<Seq<u8>>::empty(),
        run_output(Seq::<FileOutcome>::empty(), pat) == Seq::<Seq<u8>>::empty(),
        run_diagnostics(Seq::<CandidateEntry>::empty(), Seq::<FileOutcome>::empty()) == Seq::<
            Seq<u8>,
        >::empty(),
{
    assert(walk_errors(Seq::<CandidateEntry>::empty()) + scan_errors(
        Seq::<FileOutcome>::empty(),
    ) =~= Seq::<Seq<u8>>::empty());
    assert(formatted(Seq::<Seq<u8>>::empty()) =~= Seq::<Seq<u8>>::empty());
}

/// Scanning two batches of files in either order yields the same lines
/// as a multiset: concurrent workers may reorder whole lines across
/// files, but can never truncate, merge or duplicate one.
pub proof fn lemma_batch_order_immaterial(a: Seq<FileOutcome>, b: Seq<FileOutcome>, pat: Seq<u8>)
    ensures
        run_output(a + b, pat).to_multiset() == run_output(b + a, pat).to_multiset(),
{
    broadcast use vstd::multiset::group_multiset_axioms;

    lemma_run_output_concat(a, b, pat);
    lemma_run_output_concat(b, a, pat);
    vstd::seq_lib::lemma_multiset_commutative(run_output(a, pat), run_output(b, pat));
    vstd::seq_lib::lemma_multiset_commutative(run_output(b, pat), run_output(a, pat));
    assert(run_output(a, pat).to_multiset().add(run_output(b, pat).to_multiset()) =~= run_output(
        b,
        pat,
    ).to_multiset().add(run_output(a, pat).to_multiset()));
}

} // verus!
