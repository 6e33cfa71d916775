//! What holds of the store operations taken together.
use vstd::prelude::*;

use crate::error::Failure;
use crate::ops::{delete_spec, entry_lines, get_spec, lemma_entry_lines, set_spec};
use crate::store::{Contents, Store};
use crate::text::entry_line;

verus! {

/// Setting a key in an empty store and then getting it gives back the value.
pub proof fn set_then_get(key: Seq<char>, value: Seq<char>, force: bool)
    ensures
        set_spec(Ok(Map::empty()), key, value, force) is Ok,
        get_spec(set_spec(Ok(Map::empty()), key, value, force), key)
            == Ok::<Seq<char>, Failure>(value),
{
}

/// After a key has been set, setting it again with force replaces its value:
/// getting it gives the second value.
pub proof fn forced_set_overwrites(
    loaded: Result<Contents, Failure>,
    key: Seq<char>,
    first: Seq<char>,
    second: Seq<char>,
    force: bool,
)
    ensures
        set_spec(loaded, key, first, force) is Ok ==> {
            let after = set_spec(set_spec(loaded, key, first, force), key, second, true);
            after is Ok && get_spec(after, key) == Ok::<Seq<char>, Failure>(second)
        },
{
}

/// After a key has been set, setting it again without force fails with
/// `AlreadyExists`, and the key keeps the first value.
pub proof fn unforced_set_refused(
    loaded: Result<Contents, Failure>,
    key: Seq<char>,
    first: Seq<char>,
    second: Seq<char>,
    force: bool,
)
    ensures
        set_spec(loaded, key, first, force) is Ok ==> {
            let stored = set_spec(loaded, key, first, force);
            set_spec(stored, key, second, false) == Err::<Contents, Failure>(Failure::AlreadyExists)
                && get_spec(stored, key) == Ok::<Seq<char>, Failure>(first)
        },
{
}

/// On a store without the key, both getting and deleting it fail with
/// `NotFound`.
pub proof fn missing_key_not_found(c: Contents, key: Seq<char>)
    requires
        !c.contains_key(key),
    ensures
        get_spec(Ok(c), key) == Err::<Seq<char>, Failure>(Failure::NotFound),
        delete_spec(Ok(c), key) == Err::<Contents, Failure>(Failure::NotFound),
{
}

/// A key that was set and then deleted is no longer found.
pub proof fn delete_after_set(loaded: Result<Contents, Failure>, key: Seq<char>, value: Seq<char>, force: bool)
    ensures
        set_spec(loaded, key, value, force) is Ok ==> {
            let deleted = delete_spec(set_spec(loaded, key, value, force), key);
            deleted is Ok && get_spec(deleted, key) == Err::<Seq<char>, Failure>(Failure::NotFound)
        },
{
}

/// Where the store file could not be loaded (it is not valid JSON, for one),
/// setting a key leaves a store that holds that one entry, while getting or
/// deleting a key reports the load's failure.
pub proof fn failed_load_replaced_by_set(failure: Failure, key: Seq<char>, value: Seq<char>, force: bool)
    ensures
        set_spec(Err(failure), key, value, force)
            == Ok::<Contents, Failure>(Map::<Seq<char>, Option<Seq<char>>>::empty().insert(key, Some(value))),
        get_spec(Err(failure), key) == Err::<Seq<char>, Failure>(failure),
        delete_spec(Err(failure), key) == Err::<Contents, Failure>(failure),
{
}

/// In a store whose values are all strings, the listing holds one line
/// `key sep value` per entry, in the store's order, and no other line; where
/// some value is not a string, the listing fails.
pub proof fn listing_shows_every_entry(s: Store, sep: Seq<char>)
    requires
        s.wf(),
    ensures
        (forall|k: Seq<char>| s@.contains_key(k) ==> (#[trigger] s@[k]) is Some) ==> entry_lines(
            s.order(),
            s@,
            sep,
        ) is Ok && entry_lines(s.order(), s@, sep)->Ok_0.len() == s@.dom().len(),
        (forall|k: Seq<char>| s@.contains_key(k) ==> (#[trigger] s@[k]) is Some) ==> forall|
            k: Seq<char>,
        |
            #[trigger] s@.contains_key(k) ==> entry_lines(s.order(), s@, sep)->Ok_0.contains(
                entry_line(k, sep, s@[k]->Some_0),
            ),
        (forall|k: Seq<char>| s@.contains_key(k) ==> (#[trigger] s@[k]) is Some) ==> forall|i: int|
            0 <= i < entry_lines(s.order(), s@, sep)->Ok_0.len() ==> s@.contains_key(s.order()[i])
                && #[trigger] entry_lines(s.order(), s@, sep)->Ok_0[i] == entry_line(
                s.order()[i],
                sep,
                s@[s.order()[i]]->Some_0,
            ),
        (exists|k: Seq<char>| s@.contains_key(k) && (#[trigger] s@[k]) is None) ==> entry_lines(
            s.order(),
            s@,
            sep,
        ) is Err,
{
    let keys = s.order();
    let c = s@;
    lemma_entry_lines(keys, c, sep);
    assert forall|i: int| 0 <= i < keys.len() implies #[trigger] c.contains_key(keys[i]) by {
        assert(keys.to_set().contains(keys[i]));
    }
    keys.unique_seq_to_set();
    if forall|k: Seq<char>| c.contains_key(k) ==> (#[trigger] c[k]) is Some {
        assert forall|i: int| 0 <= i < keys.len() implies (#[trigger] c[keys[i]]) is Some by {
            assert(c.contains_key(keys[i]));
        }
        let lines = entry_lines(keys, c, sep)->Ok_0;
        assert(entry_lines(keys, c, sep) is Ok);
        assert(c.dom() == keys.to_set());
        assert(lines.len() == c.dom().len());
        assert forall|k: Seq<char>| #[trigger] c.contains_key(k) implies lines.contains(
            entry_line(k, sep, c[k]->Some_0),
        ) by {
            assert(keys.to_set().contains(k));
            let i = choose|i: int| 0 <= i < keys.len() && keys[i] == k;
            assert(lines[i] == entry_line(keys[i], sep, c[keys[i]]->Some_0));
        }
    }
    if exists|k: Seq<char>| c.contains_key(k) && (#[trigger] c[k]) is None {
        let k = choose|k: Seq<char>| c.contains_key(k) && (#[trigger] c[k]) is None;
        assert(keys.to_set().contains(k));
        let i = choose|i: int| 0 <= i < keys.len() && keys[i] == k;
        assert(c[keys[i]] is None);
    }
}

/// Setting two keys, one after the other, in an empty store leaves a store
/// whose listing holds the line of each.
pub proof fn two_sets_list_both(
    s: Store,
    a: Seq<char>,
    va: Seq<char>,
    b: Seq<char>,
    vb: Seq<char>,
    sep: Seq<char>,
)
    requires
        s.wf(),
        set_spec(set_spec(Ok(Map::empty()), a, va, false), b, vb, false) == Ok::<Contents, Failure>(
            s@,
        ),
    ensures
        entry_lines(s.order(), s@, sep) is Ok,
        entry_lines(s.order(), s@, sep)->Ok_0.contains(entry_line(a, sep, va)),
        entry_lines(s.order(), s@, sep)->Ok_0.contains(entry_line(b, sep, vb)),
{
    let c = s@;
    assert(a != b);
    assert(c.contains_key(a) && c[a] == Some(va));
    assert(c.contains_key(b) && c[b] == Some(vb));
    assert forall|k: Seq<char>| c.contains_key(k) implies (#[trigger] c[k]) is Some by {
        assert(k == a || k == b);
    }
    listing_shows_every_entry(s, sep);
    assert(c.contains_key(a));
    assert(c.contains_key(b));
}

} // verus!
