//! The per-file line scanner: which lines of one file are reported,
//! and which line-level read failures become diagnostics.

use vstd::prelude::*;

use crate::matching::contains_pattern;
use crate::matching::line_contains;

verus! {

/// One attempt to read a line of an open file: either the line's bytes,
/// or the description of a read failure (an I/O error, or bytes that do
/// not form text). One bad line never aborts the rest of the file.
#[derive(Debug, Clone, PartialEq, Eq)]
pub enum LineRead {
    Line(Vec<u8>),
    ReadError(Vec<u8>),
}

/// What a worker does with one line read: emit it on the primary output
/// stream, report a diagnostic on the error stream, or nothing.
#[derive(Debug, Clone, PartialEq, Eq)]
pub enum LineAction {
    Emit(Vec<u8>),
    Diagnose(Vec<u8>),
    Nothing,
}

/// The lines of a file that are reported for a pattern: the successfully
/// read lines that contain it, verbatim, in the file's own line order.
pub open spec fn matched_lines(lines: Seq<LineRead>, pat: Seq<u8>) -> Seq<Seq<u8>>
    decreases lines.len(),
{
    if lines.len() == 0 {
        Seq::empty()
    } else {
        let rest = matched_lines(lines.drop_last(), pat);
        match lines.last() {
            LineRead::Line(t) => if contains_pattern(t@, pat) {
                rest.push(t@)
            } else {
                rest
            },
            LineRead::ReadError(_) => rest,
        }
    }
}

/// The read-failure descriptions of a file, in the file's own line order.
pub open spec fn read_errors(lines: Seq<LineRead>) -> Seq<Seq<u8>>
    decreases lines.len(),
{
    if lines.len() == 0 {
        Seq::empty()
    } else {
        let rest = read_errors(lines.drop_last());
        match lines.last() {
            LineRead::Line(_) => rest,
            LineRead::ReadError(d) => rest.push(d@),
        }
    }
}

/// Appending one line read extends the reported lines by that line's
/// contribution and nothing else.
pub broadcast proof fn lemma_matched_lines_push(lines: Seq<LineRead>, l: LineRead, pat: Seq<u8>)
    ensures
        #[trigger] matched_lines(lines.push(l), pat) == (match l {
            LineRead::Line(t) => if contains_pattern(t@, pat) {
                matched_lines(lines, pat).push(t@)
            } else {
                matched_lines(lines, pat)
            },
            LineRead::ReadError(_) => matched_lines(lines, pat),
        }),
{
    assert(lines.push(l).drop_last() =~= lines);
}

/// Appending one line read extends the read-failure descriptions by that
/// line's contribution and nothing else.
pub broadcast proof fn lemma_read_errors_push(lines: Seq<LineRead>, l: LineRead)
    ensures
        #[trigger] read_errors(lines.push(l)) == (match l {
            LineRead::Line(_) => read_errors(lines),
            LineRead::ReadError(d) => read_errors(lines).push(d@),
        }),
{
    assert(lines.push(l).drop_last() =~= lines);
}

/// Scanning is line by line: the reported lines of two stretches of a
/// file, read one after the other, are the reported lines of the first
/// followed by those of the second.
pub proof fn lemma_matched_lines_concat(a: Seq<LineRead>, b: Seq<LineRead>, pat: Seq<u8>)
    ensures
        matched_lines(a + b, pat) == matched_lines(a, pat) + matched_lines(b, pat),
    decreases b.len(),
{
    if b.len() == 0 {
        assert(a + b =~= a);
        assert(matched_lines(a, pat) + matched_lines(b, pat) =~= matched_lines(a, pat));
    } else {
        lemma_matched_lines_concat(a, b.drop_last(), pat);
        assert((a + b).drop_last() =~= a + b.drop_last());
        assert(matched_lines(a + b, pat) =~= matched_lines(a, pat) + matched_lines(b, pat));
    }
}

/// Read failures accumulate stretch by stretch in the same way.
pub proof fn lemma_read_errors_concat(a: Seq<LineRead>, b: Seq<LineRead>)
    ensures
        read_errors(a + b) == read_errors(a) + read_errors(b),
    decreases b.len(),
{
    if b.len() == 0 {
        assert(a + b =~= a);
        assert(read_errors(a) + read_errors(b) =~= read_errors(a));
    } else {
        lemma_read_errors_concat(a, b.drop_last());
        assert((a + b).drop_last() =~= a + b.drop_last());
        assert(read_errors(a + b) =~= read_errors(a) + read_errors(b));
    }
}

/// The scanner's decision for one line read, made independently of every
/// other line: a successfully read line is emitted exactly when it
/// contains the pattern; a read failure becomes a diagnostic.
pub fn line_action(line: LineRead, pattern: &Vec<u8>) -> (a: LineAction)
    ensures
        match line {
            LineRead::Line(t) => if contains_pattern(t@, pattern@) {
                a matches LineAction::Emit(e) && e@ == t@
            } else {
                a matches LineAction::Nothing
            },
            LineRead::ReadError(d) => a matches LineAction::Diagnose(e) && e@ == d@,
        },
{
    match line {
        LineRead::Line(t) => {
            if line_contains(&t, pattern) {
                LineAction::Emit(t)
            } else {
                LineAction::Nothing
            }
        },
        LineRead::ReadError(d) => LineAction::Diagnose(d),
    }
}

/// What scanning one file produced: the matched lines for the primary
/// output stream, and the read-failure descriptions for the diagnostic
/// stream, each in the file's own line order.
#[derive(Debug, Clone, PartialEq, Eq)]
pub struct ScanOutcome {
    pub matched: Vec<Vec<u8>>,
    pub errors: Vec<Vec<u8>>,
}

/// Scan one file's line reads against a pattern.
///
/// The matched lines are exactly the successfully read lines containing
/// the pattern, verbatim and in line order; the errors are exactly the
/// read-failure descriptions, in line order.
pub fn scan_lines(lines: &Vec<LineRead>, pattern: &Vec<u8>) -> (out: ScanOutcome)
    ensures
        out.matched.deep_view() == matched_lines(lines@, pattern@),
        out.errors.deep_view() == read_errors(lines@),
{
    let mut matched: Vec<Vec<u8>> = Vec::new();
    let mut errors: Vec<Vec<u8>> = Vec::new();
    let n = lines.len();
    let mut i: usize = 0;
    assert(lines@.subrange(0, 0) =~= Seq::<LineRead>::empty());
    while i < n
        invariant
            n == lines@.len(),
            i <= n,
            matched.deep_view() == matched_lines(lines@.subrange(0, i as int), pattern@),
            errors.deep_view() == read_errors(lines@.subrange(0, i as int)),
        decreases n - i,
    {
        let ghost prefix = lines@.subrange(0, i as int);
        match &lines[i] {
            LineRead::Line(t) => {
                if line_contains(t, pattern) {
                    let copy = t.clone();
                    assert(copy.deep_view() =~= t.deep_view());
                    matched.push(copy);
                    assert(matched.deep_view() =~= matched_lines(prefix, pattern@).push(t.deep_view()));
                    assert(t.deep_view() =~= t@);
                }
            },
            LineRead::ReadError(d) => {
                let copy = d.clone();
                assert(copy.deep_view() =~= d.deep_view());
                errors.push(copy);
                assert(errors.deep_view() =~= read_errors(prefix).push(d.deep_view()));
                assert(d.deep_view() =~= d@);
            },
        }
        proof {
            lemma_matched_lines_push(prefix, lines@[i as int], pattern@);
            lemma_read_errors_push(prefix, lines@[i as int]);
            assert(lines@.subrange(0, i + 1) =~= prefix.push(lines@[i as int]));
        }
        i = i + 1;
    }
    assert(lines@.subrange(0, n as int) =~= lines@);
    ScanOutcome { matched, errors }
}

} // verus!
