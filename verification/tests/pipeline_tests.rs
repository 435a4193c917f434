use cgrep::diag::format_diagnostic;
use cgrep::diag::format_fatal_diagnostic;
use cgrep::pipeline::FileOutcome;
use cgrep::pipeline::RunReport;
use cgrep::pipeline::TraversalOutcome;
use cgrep::pipeline::run_search;
use cgrep::scan::LineRead;
use cgrep::traversal::CandidateEntry;
use cgrep::traversal::EntryAction;
use cgrep::traversal::entry_action;
use cgrep::traversal::filter_entries;

fn b(s: &str) -> Vec<u8> {
    s.as_bytes().to_vec()
}

#[test]
fn diagnostic_lines_carry_the_documented_prefixes() {
    assert_eq!(format_diagnostic(&b("permission denied")), b("Error: permission denied"));
    assert_eq!(
        format_fatal_diagnostic(&b("no such directory")),
        b("Error reading directory: no such directory")
    );
}

#[test]
fn entry_actions_open_files_drop_directories_report_failures() {
    assert_eq!(entry_action(CandidateEntry::File(b("a/b.txt"))), EntryAction::Open(b("a/b.txt")));
    assert_eq!(entry_action(CandidateEntry::Directory(b("a"))), EntryAction::Drop);
    assert_eq!(
        entry_action(CandidateEntry::TraversalError(b("unreadable"))),
        EntryAction::Diagnose(b("unreadable"))
    );
}

#[test]
fn filter_keeps_files_in_discovery_order() {
    let entries = vec![
        CandidateEntry::Directory(b("sub")),
        CandidateEntry::File(b("sub/one.txt")),
        CandidateEntry::TraversalError(b("sub/locked unreadable")),
        CandidateEntry::File(b("two.txt")),
    ];
    let out = filter_entries(&entries);
    assert_eq!(out.files, vec![b("sub/one.txt"), b("two.txt")]);
    assert_eq!(out.errors, vec![b("sub/locked unreadable")]);
}

#[test]
fn empty_root_yields_nothing_and_exits_zero() {
    let root = TraversalOutcome::Walked(Vec::new());
    let report: RunReport = run_search(&root, &Vec::new(), &b("needle"));
    assert_eq!(report.output, Vec::<Vec<u8>>::new());
    assert_eq!(report.diagnostics, Vec::<Vec<u8>>::new());
    assert_eq!(report.exit_code, 0);
}

#[test]
fn missing_root_is_fatal_one_diagnostic_exit_one() {
    let root = TraversalOutcome::Failed(b("No such file or directory"));
    let report = run_search(&root, &Vec::new(), &b("needle"));
    assert_eq!(report.output, Vec::<Vec<u8>>::new());
    assert_eq!(
        report.diagnostics,
        vec![b("Error reading directory: No such file or directory")]
    );
    assert_eq!(report.exit_code, 1);
}

fn healthy_tree() -> (Vec<CandidateEntry>, Vec<FileOutcome>) {
    let entries = vec![
        CandidateEntry::Directory(b("tree")),
        CandidateEntry::File(b("tree/a.txt")),
        CandidateEntry::File(b("tree/b.txt")),
    ];
    let files = vec![
        FileOutcome::Scanned(vec![
            LineRead::Line(b("a needle in a")),
            LineRead::Line(b("haystack")),
        ]),
        FileOutcome::Scanned(vec![
            LineRead::Line(b("more hay")),
            LineRead::Line(b("b needle in b")),
        ]),
    ];
    (entries, files)
}

#[test]
fn matches_come_out_verbatim_in_file_and_line_order() {
    let (entries, files) = healthy_tree();
    let report = run_search(&TraversalOutcome::Walked(entries), &files, &b("needle"));
    assert_eq!(report.output, vec![b("a needle in a"), b("b needle in b")]);
    assert_eq!(report.diagnostics, Vec::<Vec<u8>>::new());
    assert_eq!(report.exit_code, 0);
}

#[test]
fn running_twice_gives_the_same_output() {
    let (entries, files) = healthy_tree();
    let first = run_search(&TraversalOutcome::Walked(entries.clone()), &files, &b("needle"));
    let second = run_search(&TraversalOutcome::Walked(entries), &files, &b("needle"));
    assert_eq!(first, second);
}

#[test]
fn injected_failures_cost_three_diagnostics_and_no_match() {
    // one unreadable subdirectory, one unopenable file, one file with a
    // non-text byte sequence on one line: still every other match, with
    // exactly three diagnostics, and exit code 0
    let entries = vec![
        CandidateEntry::Directory(b("tree")),
        CandidateEntry::TraversalError(b("tree/locked: Permission denied")),
        CandidateEntry::File(b("tree/a.txt")),
        CandidateEntry::File(b("tree/secret.txt")),
        CandidateEntry::File(b("tree/mixed.bin")),
    ];
    let files = vec![
        FileOutcome::Scanned(vec![LineRead::Line(b("a needle in a"))]),
        FileOutcome::OpenError(b("tree/secret.txt: Permission denied")),
        FileOutcome::Scanned(vec![
            LineRead::ReadError(b("stream did not contain valid UTF-8")),
            LineRead::Line(b("trailing needle line")),
        ]),
    ];
    let report = run_search(&TraversalOutcome::Walked(entries), &files, &b("needle"));
    assert_eq!(report.output, vec![b("a needle in a"), b("trailing needle line")]);
    assert_eq!(
        report.diagnostics,
        vec![
            b("Error: tree/locked: Permission denied"),
            b("Error: tree/secret.txt: Permission denied"),
            b("Error: stream did not contain valid UTF-8"),
        ]
    );
    assert_eq!(report.exit_code, 0);
}

#[test]
fn batch_order_changes_only_the_order_of_whole_lines() {
    // scanning more files than there are workers may deliver whole files'
    // output in any order; against a sequential reference the multiset of
    // lines is unchanged: same count, same sorted lines, none truncated,
    // merged or duplicated
    let pattern = b("n");
    let mut files: Vec<FileOutcome> = Vec::new();
    for i in 0..32 {
        files.push(FileOutcome::Scanned(vec![
            LineRead::Line(format!("n line {}", i).into_bytes()),
            LineRead::Line(b("hay")),
        ]));
    }
    let entries: Vec<CandidateEntry> = (0..32)
        .map(|i| CandidateEntry::File(format!("f{}", i).into_bytes()))
        .collect();
    let reference = run_search(&TraversalOutcome::Walked(entries.clone()), &files, &pattern);

    let mut reordered = files.clone();
    reordered.reverse();
    let other = run_search(&TraversalOutcome::Walked(entries), &reordered, &pattern);

    assert_eq!(reference.output.len(), other.output.len());
    let mut left = reference.output.clone();
    let mut right = other.output.clone();
    left.sort();
    right.sort();
    assert_eq!(left, right);
    assert_ne!(reference.output, other.output); // the order itself did change
}
