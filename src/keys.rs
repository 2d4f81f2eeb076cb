use vstd::prelude::*;

verus! {

/// Why a store refused an operation.
#[derive(Clone, Copy, Debug, PartialEq, Eq, Structural)]
pub enum StoreError {
    /// No record with the requested identifier is held.
    NotFound,
    /// The identifier drawn for a new record is already held by another one.
    DuplicateId,
}

/// Whether no identifier occurs twice in `ids`.
pub open spec fn all_distinct(ids: Seq<u128>) -> bool {
    forall|i: int, j: int|
        0 <= i < ids.len() && 0 <= j < ids.len() && i != j ==> ids[i] != ids[j]
}

/// The position at which `id` occurs in `ids`, when it does.
pub open spec fn position_of(ids: Seq<u128>, id: u128) -> int {
    choose|i: int| 0 <= i < ids.len() && ids[i] == id
}

/// Where identifiers are distinct, the only position that holds `id` is the
/// one that `position_of` picks.
pub proof fn lemma_position_unique(ids: Seq<u128>, k: int, id: u128)
    requires
        all_distinct(ids),
        0 <= k < ids.len(),
        ids[k] == id,
    ensures
        ids.contains(id),
        position_of(ids, id) == k,
{
    assert(ids.contains(id));
    let j = position_of(ids, id);
    assert(0 <= j < ids.len() && ids[j] == id);
}

/// Appending an identifier that is not yet present keeps identifiers distinct.
pub proof fn lemma_push_distinct(ids: Seq<u128>, id: u128)
    requires
        all_distinct(ids),
        !ids.contains(id),
    ensures
        all_distinct(ids.push(id)),
{
    let s = ids.push(id);
    assert forall|i: int, j: int| 0 <= i < s.len() && 0 <= j < s.len() && i != j implies s[i]
        != s[j] by {
        if i == ids.len() as int {
            assert(ids[j] == s[j]);
        } else if j == ids.len() as int {
            assert(ids[i] == s[i]);
        }
    }
}

/// Removing any position keeps identifiers distinct, and the identifier that
/// stood there occurs no more.
pub proof fn lemma_remove_distinct(ids: Seq<u128>, k: int)
    requires
        all_distinct(ids),
        0 <= k < ids.len(),
    ensures
        all_distinct(ids.remove(k)),
        !ids.remove(k).contains(ids[k]),
{
    let s = ids.remove(k);
    assert forall|i: int, j: int| 0 <= i < s.len() && 0 <= j < s.len() && i != j implies s[i]
        != s[j] by {
        let a = if i < k { i } else { i + 1 };
        let b = if j < k { j } else { j + 1 };
        assert(s[i] == ids[a] && s[j] == ids[b]);
    }
    if s.contains(ids[k]) {
        let i = choose|i: int| 0 <= i < s.len() && s[i] == ids[k];
        let a = if i < k { i } else { i + 1 };
        assert(s[i] == ids[a]);
    }
}

} // verus!
