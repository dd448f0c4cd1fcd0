use vstd::prelude::*;

verus! {

/// Capacity, in UTF-16 units, of the buffer an identifier is fetched into:
/// the length reported for it plus one unit for the terminator. `None` when
/// that capacity cannot be expressed.
pub open spec fn capacity_for(reported: u32) -> Option<u32> {
    if reported < u32::MAX {
        Some((reported + 1) as u32)
    } else {
        None
    }
}

/// Computes the fetch capacity for a reported identifier length.
pub fn fetch_capacity(reported: u32) -> (r: Option<u32>)
    ensures
        r == capacity_for(reported),
{
    if reported < u32::MAX {
        Some(reported + 1)
    } else {
        None
    }
}

/// The identifier held by a fetched buffer: its first `reported` units,
/// provided the buffer has exactly the fetch capacity and ends with the
/// terminator. A buffer of any other shape holds no usable identifier.
pub open spec fn identifier_in(buffer: Seq<u16>, reported: nat) -> Option<Seq<u16>> {
    if buffer.len() == reported + 1 && buffer[reported as int] == 0 {
        Some(buffer.subrange(0, reported as int))
    } else {
        None
    }
}

/// Whether a fetched buffer holds exactly the identifier `target`.
pub fn identifier_matches(buffer: &Vec<u16>, reported: u32, target: &Vec<u16>) -> (r: bool)
    ensures
        r == (identifier_in(buffer@, reported as nat) == Some(target@)),
{
    let n = reported as usize;
    if buffer.len() == 0 || buffer.len() - 1 != n || buffer[n] != 0 || target.len() != n {
        return false;
    }
    let mut i: usize = 0;
    while i < n
        invariant
            buffer@.len() == n + 1,
            target@.len() == n,
            0 <= i <= n,
            forall|j: int| 0 <= j < i ==> buffer@[j] == target@[j],
        decreases n - i,
    {
        if buffer[i] != target[i] {
            assert(buffer@.subrange(0, n as int)[i as int] != target@[i as int]);
            return false;
        }
        i = i + 1;
    }
    assert(buffer@.subrange(0, n as int) =~= target@);
    true
}

} // verus!
