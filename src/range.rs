use vstd::prelude::*;

verus! {

/// The size of the next range: the configured size, clamped to what the
/// caller's buffer can take.
pub open spec fn effective_chunk(chunk_size: nat, capacity: nat) -> nat {
    if chunk_size <= capacity {
        chunk_size
    } else {
        capacity
    }
}

/// The last byte offset of the next range, which starts at `downloaded`.
pub open spec fn range_end(downloaded: nat, total: nat, chunk_size: nat, capacity: nat) -> int {
    let wanted = downloaded + effective_chunk(chunk_size, capacity) - 1;
    if wanted <= total - 1 {
        wanted
    } else {
        total - 1
    }
}

/// Computes `range_end` without overflow.
pub fn next_range_end(downloaded: u64, total: u64, chunk_size: u64, capacity: usize) -> (end: u64)
    requires
        downloaded < total,
        chunk_size > 0,
        capacity > 0,
    ensures
        end as int == range_end(downloaded as nat, total as nat, chunk_size as nat, capacity as nat),
        downloaded <= end < total,
{
    let cap = capacity as u64;
    let eff = if chunk_size <= cap { chunk_size } else { cap };
    let left = total - downloaded;
    let len = if eff <= left { eff } else { left };
    downloaded + (len - 1)
}

/// Error codes by which the service says that no byte lies at the start of
/// the requested range.
pub open spec fn no_further_range_code(code: Seq<char>) -> bool {
    code == "InvalidPartNumber"@ || code == "InvalidRange"@
}

/// Whether two strings hold the same characters.
fn same_text(a: &str, b: &str) -> (r: bool)
    ensures
        r == (a@ == b@),
{
    let n = a.unicode_len();
    if n != b.unicode_len() {
        return false;
    }
    let mut i: usize = 0;
    while i < n
        invariant
            n == a@.len(),
            n == b@.len(),
            i <= n,
            forall|j: int| 0 <= j < i ==> a@[j] == b@[j],
        decreases n - i,
    {
        if a.get_char(i) != b.get_char(i) {
            return false;
        }
        i = i + 1;
    }
    assert(a@ =~= b@);
    true
}

/// Classifies a service error code: does it say that the range lies past the
/// end of the object?
pub fn is_no_further_range(code: &str) -> (r: bool)
    ensures
        r == no_further_range_code(code@),
{
    let part: &str = "InvalidPartNumber";
    let range: &str = "InvalidRange";
    proof {
        reveal_strlit("InvalidPartNumber");
        reveal_strlit("InvalidRange");
    }
    same_text(code, part) || same_text(code, range)
}

} // verus!
