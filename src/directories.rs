//! Choosing a directory to show the user when the configured one is gone.

use vstd::prelude::*;

verus! {

/// Given, for a path and then each of its ancestors up to the root, whether
/// it exists on disk, the index of the first that exists; the root's when
/// none does. `None` only for an empty list.
///
/// This lets a directory dialog or a file explorer open at the nearest
/// surviving parent of a directory the user has since deleted.
pub fn find_existing_parent(exists: &[bool]) -> (r: Option<usize>)
    ensures
        exists@.len() == 0 <==> r is None,
        r matches Some(i) ==> {
            &&& i < exists@.len()
            &&& forall|j: int| 0 <= j < i ==> !exists@[j]
            &&& (exists@[i as int] || i == exists@.len() - 1)
        },
{
    if exists.len() == 0 {
        return None;
    }
    let mut current: usize = 0;
    while !exists[current] && current + 1 < exists.len()
        invariant
            exists@.len() > 0,
            current < exists@.len(),
            forall|j: int| 0 <= j < current ==> !exists@[j],
        decreases exists@.len() - current,
    {
        current = current + 1;
    }
    Some(current)
}

} // verus!
