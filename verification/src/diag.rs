//! Diagnostic formatting: the exact lines written to the error stream.

use vstd::prelude::*;

verus! {

/// The prefix of every non-fatal diagnostic line: `"Error: "`.
pub open spec fn error_prefix() -> Seq<u8> {
    seq![69u8, 114u8, 114u8, 111u8, 114u8, 58u8, 32u8]
}

/// The prefix of the one fatal diagnostic: `"Error reading directory: "`.
pub open spec fn fatal_prefix() -> Seq<u8> {
    seq![
        69u8, 114u8, 114u8, 111u8, 114u8, 32u8, 114u8, 101u8, 97u8, 100u8, 105u8, 110u8, 103u8, 32u8,
        100u8, 105u8, 114u8, 101u8, 99u8, 116u8, 111u8, 114u8, 121u8, 58u8, 32u8,
    ]
}

/// One non-fatal diagnostic line for a failure description.
pub open spec fn diagnostic_line(description: Seq<u8>) -> Seq<u8> {
    error_prefix() + description
}

/// The one fatal diagnostic line, for a root that cannot be traversed.
pub open spec fn fatal_line(description: Seq<u8>) -> Seq<u8> {
    fatal_prefix() + description
}

/// Append all of `src` to `dst`, in order.
fn push_all(dst: &mut Vec<u8>, src: &Vec<u8>)
    ensures
        final(dst)@ == old(dst)@ + src@,
{
    let n = src.len();
    let mut i: usize = 0;
    assert(old(dst)@ + src@.subrange(0, 0) =~= old(dst)@);
    while i < n
        invariant
            n == src@.len(),
            i <= n,
            dst@ == old(dst)@ + src@.subrange(0, i as int),
        decreases n - i,
    {
        dst.push(src[i]);
        assert(dst@ =~= old(dst)@ + src@.subrange(0, i + 1));
        i = i + 1;
    }
    assert(src@.subrange(0, n as int) =~= src@);
}

/// Format one non-fatal failure description as the line written to the
/// diagnostic stream: `"Error: "` followed by the description.
pub fn format_diagnostic(description: &Vec<u8>) -> (r: Vec<u8>)
    ensures
        r@ == diagnostic_line(description@),
{
    let mut r: Vec<u8> = Vec::new();
    r.push(69u8);
    r.push(114u8);
    r.push(114u8);
    r.push(111u8);
    r.push(114u8);
    r.push(58u8);
    r.push(32u8);
    assert(r@ =~= error_prefix());
    push_all(&mut r, description);
    r
}

/// Format the fatal startup failure as the line written to the
/// diagnostic stream: `"Error reading directory: "` followed by the
/// description.
pub fn format_fatal_diagnostic(description: &Vec<u8>) -> (r: Vec<u8>)
    ensures
        r@ == fatal_line(description@),
{
    let mut r: Vec<u8> = Vec::new();
    r.push(69u8);
    r.push(114u8);
    r.push(114u8);
    r.push(111u8);
    r.push(114u8);
    r.push(32u8);
    r.push(114u8);
    r.push(101u8);
    r.push(97u8);
    r.push(100u8);
    r.push(105u8);
    r.push(110u8);
    r.push(103u8);
    r.push(32u8);
    r.push(100u8);
    r.push(105u8);
    r.push(114u8);
    r.push(101u8);
    r.push(99u8);
    r.push(116u8);
    r.push(111u8);
    r.push(114u8);
    r.push(121u8);
    r.push(58u8);
    r.push(32u8);
    assert(r@ =~= fatal_prefix());
    push_all(&mut r, description);
    r
}

} // verus!
