//! The traversal adapter: which discovered entries survive to the file
//! opener, and which become diagnostics.

use vstd::prelude::*;

verus! {

/// One result of the recursive directory walk, as the walker hands it
/// back: a regular file, a directory (present only to enable descent),
/// or a per-entry failure. An entry whose file type cannot be
/// determined is handed in as a `TraversalError` carrying the failure's
/// description.
#[derive(Debug, Clone, PartialEq, Eq)]
pub enum CandidateEntry {
    File(Vec<u8>),
    Directory(Vec<u8>),
    TraversalError(Vec<u8>),
}

/// The decision for one discovered entry: open the file for scanning,
/// drop the entry silently, or report a diagnostic and drop it.
#[derive(Debug, Clone, PartialEq, Eq)]
pub enum EntryAction {
    Open(Vec<u8>),
    Drop,
    Diagnose(Vec<u8>),
}

/// The paths that survive the filter stage: the regular files, in
/// discovery order.
pub open spec fn file_paths(entries: Seq<CandidateEntry>) -> Seq<Seq<u8>>
    decreases entries.len(),
{
    if entries.len() == 0 {
        Seq::empty()
    } else {
        let rest = file_paths(entries.drop_last());
        match entries.last() {
            CandidateEntry::File(p) => rest.push(p@),
            CandidateEntry::Directory(_) => rest,
            CandidateEntry::TraversalError(_) => rest,
        }
    }
}

/// The per-entry traversal failure descriptions, in discovery order.
pub open spec fn walk_errors(entries: Seq<CandidateEntry>) -> Seq<Seq<u8>>
    decreases entries.len(),
{
    if entries.len() == 0 {
        Seq::empty()
    } else {
        let rest = walk_errors(entries.drop_last());
        match entries.last() {
            CandidateEntry::File(_) => rest,
            CandidateEntry::Directory(_) => rest,
            CandidateEntry::TraversalError(d) => rest.push(d@),
        }
    }
}

/// One more discovered entry extends the surviving paths by its own
/// contribution and nothing else.
pub broadcast proof fn lemma_file_paths_push(entries: Seq<CandidateEntry>, e: CandidateEntry)
    ensures
        #[trigger] file_paths(entries.push(e)) == (match e {
            CandidateEntry::File(p) => file_paths(entries).push(p@),
            CandidateEntry::Directory(_) => file_paths(entries),
            CandidateEntry::TraversalError(_) => file_paths(entries),
        }),
{
    assert(entries.push(e).drop_last() =~= entries);
}

/// One more discovered entry extends the traversal failures by its own
/// contribution and nothing else.
pub broadcast proof fn lemma_walk_errors_push(entries: Seq<CandidateEntry>, e: CandidateEntry)
    ensures
        #[trigger] walk_errors(entries.push(e)) == (match e {
            CandidateEntry::File(_) => walk_errors(entries),
            CandidateEntry::Directory(_) => walk_errors(entries),
            CandidateEntry::TraversalError(d) => walk_errors(entries).push(d@),
        }),
{
    assert(entries.push(e).drop_last() =~= entries);
}

/// Filtering is entry by entry: the surviving paths of two stretches of
/// a walk are the survivors of the first followed by those of the
/// second.
pub proof fn lemma_file_paths_concat(a: Seq<CandidateEntry>, b: Seq<CandidateEntry>)
    ensures
        file_paths(a + b) == file_paths(a) + file_paths(b),
    decreases b.len(),
{
    if b.len() == 0 {
        assert(a + b =~= a);
        assert(file_paths(a) + file_paths(b) =~= file_paths(a));
    } else {
        lemma_file_paths_concat(a, b.drop_last());
        assert((a + b).drop_last() =~= a + b.drop_last());
        assert(file_paths(a + b) =~= file_paths(a) + file_paths(b));
    }
}

/// Traversal failures accumulate stretch by stretch in the same way.
pub proof fn lemma_walk_errors_concat(a: Seq<CandidateEntry>, b: Seq<CandidateEntry>)
    ensures
        walk_errors(a + b) == walk_errors(a) + walk_errors(b),
    decreases b.len(),
{
    if b.len() == 0 {
        assert(a + b =~= a);
        assert(walk_errors(a) + walk_errors(b) =~= walk_errors(a));
    } else {
        lemma_walk_errors_concat(a, b.drop_last());
        assert((a + b).drop_last() =~= a + b.drop_last());
        assert(walk_errors(a + b) =~= walk_errors(a) + walk_errors(b));
    }
}

/// The filter stage's decision for one entry, made independently of
/// every other entry: a regular file goes on to the opener, a directory
/// is dropped silently, a per-entry failure becomes a diagnostic — it
/// never stops the walk.
pub fn entry_action(entry: CandidateEntry) -> (a: EntryAction)
    ensures
        match entry {
            CandidateEntry::File(p) => a matches EntryAction::Open(q) && q@ == p@,
            CandidateEntry::Directory(_) => a matches EntryAction::Drop,
            CandidateEntry::TraversalError(d) => a matches EntryAction::Diagnose(e) && e@ == d@,
        },
{
    match entry {
        CandidateEntry::File(p) => EntryAction::Open(p),
        CandidateEntry::Directory(_) => EntryAction::Drop,
        CandidateEntry::TraversalError(d) => EntryAction::Diagnose(d),
    }
}

/// What the filter stage made of a whole walk: the surviving file
/// paths, and the per-entry failure descriptions, each in discovery
/// order.
#[derive(Debug, Clone, PartialEq, Eq)]
pub struct DiscoveryOutcome {
    pub files: Vec<Vec<u8>>,
    pub errors: Vec<Vec<u8>>,
}

/// Filter a whole walk: exactly the regular files survive, exactly the
/// per-entry failures become diagnostics, and directories vanish.
pub fn filter_entries(entries: &Vec<CandidateEntry>) -> (out: DiscoveryOutcome)
    ensures
        out.files.deep_view() == file_paths(entries@),
        out.errors.deep_view() == walk_errors(entries@),
{
    let mut files: Vec<Vec<u8>> = Vec::new();
    let mut errors: Vec<Vec<u8>> = Vec::new();
    let n = entries.len();
    let mut i: usize = 0;
    assert(entries@.subrange(0, 0) =~= Seq::<CandidateEntry>::empty());
    while i < n
        invariant
            n == entries@.len(),
            i <= n,
            files.deep_view() == file_paths(entries@.subrange(0, i as int)),
            errors.deep_view() == walk_errors(entries@.subrange(0, i as int)),
        decreases n - i,
    {
        let ghost prefix = entries@.subrange(0, i as int);
        match &entries[i] {
            CandidateEntry::File(p) => {
                let copy = p.clone();
                assert(copy.deep_view() =~= p.deep_view());
                files.push(copy);
                assert(files.deep_view() =~= file_paths(prefix).push(p.deep_view()));
                assert(p.deep_view() =~= p@);
            },
            CandidateEntry::Directory(_) => {},
            CandidateEntry::TraversalError(d) => {
                let copy = d.clone();
                assert(copy.deep_view() =~= d.deep_view());
                errors.push(copy);
                assert(errors.deep_view() =~= walk_errors(prefix).push(d.deep_view()));
                assert(d.deep_view() =~= d@);
            },
        }
        proof {
            lemma_file_paths_push(prefix, entries@[i as int]);
            lemma_walk_errors_push(prefix, entries@[i as int]);
            assert(entries@.subrange(0, i + 1) =~= prefix.push(entries@[i as int]));
        }
        i = i + 1;
    }
    assert(entries@.subrange(0, n as int) =~= entries@);
    DiscoveryOutcome { files, errors }
}

} // verus!
