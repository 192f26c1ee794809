//! Searching runs of bytes.

use vstd::prelude::*;

verus! {

/// Whether `pattern` stands in `text` at `at`.
pub open spec fn stands_at(text: Seq<u8>, pattern: Seq<u8>, at: int) -> bool {
    0 <= at && at + pattern.len() <= text.len() && text.subrange(at, at + pattern.len())
        == pattern
}

/// Whether `pattern` stands somewhere in `text`.
pub open spec fn holds_bytes(text: Seq<u8>, pattern: Seq<u8>) -> bool {
    exists|at: int| stands_at(text, pattern, at)
}

/// Tests whether `pattern` stands in `text` at `at`.
fn matches_at(text: &[u8], pattern: &[u8], at: usize) -> (found: bool)
    requires
        at + pattern@.len() <= text@.len(),
    ensures
        found == stands_at(text@, pattern@, at as int),
{
    let len = text.len();
    let mut k: usize = 0;
    while k < pattern.len()
        invariant
            k <= pattern@.len(),
            len == text@.len(),
            at + pattern@.len() <= text@.len(),
            forall|j: int| 0 <= j < k ==> text@[at + j] == pattern@[j],
        decreases pattern@.len() - k,
    {
        if text[at + k] != pattern[k] {
            assert(text@.subrange(at as int, at + pattern@.len())[k as int] != pattern@[k as int]);
            return false;
        }
        k += 1;
    }
    assert(text@.subrange(at as int, at + pattern@.len()) =~= pattern@);
    true
}

/// Tests whether `text` begins with `prefix`.
pub fn starts_with_bytes(text: &[u8], prefix: &[u8]) -> (found: bool)
    ensures
        found == stands_at(text@, prefix@, 0),
{
    if prefix.len() > text.len() {
        false
    } else {
        matches_at(text, prefix, 0)
    }
}

/// Tests whether `pattern` stands somewhere in `text`.
pub fn contains_bytes(text: &[u8], pattern: &[u8]) -> (found: bool)
    ensures
        found == holds_bytes(text@, pattern@),
{
    if pattern.len() > text.len() {
        return false;
    }
    if pattern.len() == 0 {
        assert(stands_at(text@, pattern@, 0)) by {
            assert(text@.subrange(0, 0) =~= pattern@);
        }
        return true;
    }
    let last = text.len() - pattern.len();
    let mut at: usize = 0;
    while at <= last
        invariant
            last == text@.len() - pattern@.len(),
            last < usize::MAX,
            at <= last + 1,
            forall|j: int| 0 <= j < at ==> !stands_at(text@, pattern@, j),
        decreases last + 1 - at,
    {
        if matches_at(text, pattern, at) {
            return true;
        }
        at += 1;
    }
    false
}

} // verus!
