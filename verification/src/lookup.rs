//! Lists of named entries, kept in the order in which they were declared:
//! the first entry of a name is the one that counts.
use vstd::prelude::*;
use crate::text::same_text;

verus! {

/// The name at `i` is `key`, and no name before it is.
pub open spec fn is_first_key(keys: Seq<Seq<char>>, key: Seq<char>, i: int) -> bool {
    &&& 0 <= i < keys.len()
    &&& keys[i] == key
    &&& forall|j: int| 0 <= j < i ==> #[trigger] keys[j] != key
}

/// The first position at which the name `key` stands.
pub open spec fn first_key(keys: Seq<Seq<char>>, key: Seq<char>) -> Option<int> {
    if exists|i: int| is_first_key(keys, key, i) {
        Some(choose|i: int| is_first_key(keys, key, i))
    } else {
        None
    }
}

/// The names of a list of named entries.
pub open spec fn entry_keys<T>(entries: Seq<(String, T)>) -> Seq<Seq<char>> {
    Seq::new(entries.len(), |i: int| entries[i].0@)
}

/// Where a name stands first at `i`, `first_key` gives `i`.
pub proof fn lemma_first_key_is_unique(keys: Seq<Seq<char>>, key: Seq<char>, i: int)
    requires
        is_first_key(keys, key, i),
    ensures
        first_key(keys, key) == Some(i),
{
    let chosen = choose|k: int| is_first_key(keys, key, k);
    if chosen < i {
        assert(keys[chosen] != key);
    }
    if i < chosen {
        assert(keys[i] != key);
    }
}

/// Where the name stands nowhere, `first_key` gives nothing.
pub proof fn lemma_no_key(keys: Seq<Seq<char>>, key: Seq<char>)
    requires
        forall|j: int| 0 <= j < keys.len() ==> #[trigger] keys[j] != key,
    ensures
        first_key(keys, key) is None,
{
    if exists|i: int| is_first_key(keys, key, i) {
        let i = choose|i: int| is_first_key(keys, key, i);
        assert(keys[i] != key);
    }
}

/// Finds the first entry with the name `key`.
pub fn find_named<T>(entries: &Vec<(String, T)>, key: &str) -> (found: Option<usize>)
    ensures
        match first_key(entry_keys(entries@), key@) {
            Some(i) => found matches Some(at) && at == i && 0 <= i < entries@.len(),
            None => found is None,
        },
{
    let ghost keys = entry_keys(entries@);
    let mut i: usize = 0;
    while i < entries.len()
        invariant
            i <= entries@.len(),
            keys == entry_keys(entries@),
            forall|j: int| 0 <= j < i ==> #[trigger] keys[j] != key@,
        decreases entries@.len() - i,
    {
        if same_text(entries[i].0.as_str(), key) {
            proof {
                assert(keys[i as int] == key@);
                lemma_first_key_is_unique(keys, key@, i as int);
            }
            return Some(i);
        }
        assert(keys[i as int] != key@);
        i += 1;
    }
    proof {
        lemma_no_key(keys, key@);
    }
    None
}

} // verus!
