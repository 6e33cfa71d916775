use vstd::prelude::*;
use vstd::string::*;

use crate::error::{Failure, KvError};
use crate::json::{object_entries, object_get, object_has, object_insert, object_is_empty, object_remove, new_object};
use crate::store::{loaded_view, Contents, Store};
use crate::text::{
    already_present_message, deleted_message, entry_line, join_lines, no_keys_message,
    not_found_message, not_text_message, push_line, quoted_message, set_message,
};

verus! {

/// What `get` gives for `key`, from what loading gave.
pub open spec fn get_spec(loaded: Result<Contents, Failure>, key: Seq<char>) -> Result<Seq<char>, Failure> {
    match loaded {
        Err(f) => Err(f),
        Ok(c) => if !c.contains_key(key) {
            Err(Failure::NotFound)
        } else {
            match c[key] {
                Some(v) => Ok(v),
                None => Err(Failure::InvalidData),
            }
        },
    }
}

/// The store that `set` leaves: a failed load counts as an empty store.
pub open spec fn set_spec(loaded: Result<Contents, Failure>, key: Seq<char>, value: Seq<char>, force: bool) -> Result<Contents, Failure> {
    let base = match loaded {
        Ok(c) => c,
        Err(_) => Map::empty(),
    };
    if base.contains_key(key) && !force {
        Err(Failure::AlreadyExists)
    } else {
        Ok(base.insert(key, Some(value)))
    }
}

/// The store that `delete` leaves.
pub open spec fn delete_spec(loaded: Result<Contents, Failure>, key: Seq<char>) -> Result<Contents, Failure> {
    match loaded {
        Err(f) => Err(f),
        Ok(c) => if !c.contains_key(key) {
            Err(Failure::NotFound)
        } else {
            Ok(c.remove(key))
        },
    }
}

/// The lines `key sep value` of the entries whose keys are `keys`, in that
/// order, or the first of those keys whose value is not a string.
pub open spec fn entry_lines(keys: Seq<Seq<char>>, c: Contents, sep: Seq<char>) -> Result<Seq<Seq<char>>, Seq<char>>
    decreases keys.len(),
{
    if keys.len() == 0 {
        Ok(Seq::empty())
    } else {
        match entry_lines(keys.drop_last(), c, sep) {
            Err(k) => Err(k),
            Ok(lines) => match c[keys.last()] {
                Some(v) => Ok(lines.push(entry_line(keys.last(), sep, v))),
                None => Err(keys.last()),
            },
        }
    }
}

/// Where every key of `keys` holds a string, the listing has one line per
/// key, in order; where one of them holds another value, it fails.
pub proof fn lemma_entry_lines(keys: Seq<Seq<char>>, c: Contents, sep: Seq<char>)
    ensures
        (forall|i: int| 0 <= i < keys.len() ==> (#[trigger] c[keys[i]]) is Some) ==> {
            &&& entry_lines(keys, c, sep) is Ok
            &&& entry_lines(keys, c, sep)->Ok_0.len() == keys.len()
            &&& forall|i: int|
                0 <= i < keys.len() ==> #[trigger] entry_lines(keys, c, sep)->Ok_0[i]
                    == entry_line(keys[i], sep, c[keys[i]]->Some_0)
        },
        (exists|i: int| 0 <= i < keys.len() && (#[trigger] c[keys[i]]) is None) ==> entry_lines(
            keys,
            c,
            sep,
        ) is Err,
    decreases keys.len(),
{
    if keys.len() > 0 {
        let rest = keys.drop_last();
        lemma_entry_lines(rest, c, sep);
        if forall|i: int| 0 <= i < keys.len() ==> (#[trigger] c[keys[i]]) is Some {
            assert forall|i: int| 0 <= i < rest.len() implies (#[trigger] c[rest[i]]) is Some by {
                assert(rest[i] == keys[i]);
            }
            assert(c[keys[keys.len() - 1]] is Some);
            let lines = entry_lines(keys, c, sep)->Ok_0;
            assert forall|i: int| 0 <= i < keys.len() implies #[trigger] lines[i]
                == entry_line(keys[i], sep, c[keys[i]]->Some_0) by {
                if i < rest.len() {
                    assert(rest[i] == keys[i]);
                }
            }
        }
        if exists|i: int| 0 <= i < keys.len() && (#[trigger] c[keys[i]]) is None {
            let i = choose|i: int| 0 <= i < keys.len() && (#[trigger] c[keys[i]]) is None;
            if i < rest.len() {
                assert(rest[i] == keys[i]);
                assert(c[rest[i]] is None);
            }
        }
    }
}

/// Whether `r` is the listing of `s` with separator `sep`: its lines joined,
/// or an error naming the first key whose value is not a string.
pub open spec fn is_listing(r: Result<String, KvError>, s: Store, sep: Seq<char>) -> bool {
    match entry_lines(s.order(), s@, sep) {
        Ok(lines) => r is Ok && r->Ok_0@ == join_lines(lines),
        Err(k) => r is Err && r->Err_0.kind == Failure::InvalidData
            && r->Err_0.message@ == not_text_message(k),
    }
}

/// The value stored under `key`.
pub fn get(loaded: Result<Store, KvError>, key: &str) -> (r: Result<String, KvError>)
    ensures
        match get_spec(loaded_view(loaded), key@) {
            Ok(v) => r is Ok && r->Ok_0@ == v,
            Err(f) => r is Err && r->Err_0.kind == f,
        },
        loaded is Err ==> r == Err::<String, KvError>(loaded->Err_0),
        get_spec(loaded_view(loaded), key@) == Err::<Seq<char>, Failure>(Failure::NotFound)
            && loaded is Ok ==> r->Err_0.message@ == not_found_message(key@),
        get_spec(loaded_view(loaded), key@) == Err::<Seq<char>, Failure>(Failure::InvalidData)
            && loaded is Ok ==> r->Err_0.message@ == not_text_message(key@),
{
    match loaded {
        Err(e) => Err(e),
        Ok(store) => match object_get(&store.map, key) {
            None => Err(KvError::new(Failure::NotFound, quoted_message("Key \"", key, "\" not found."))),
            Some(None) => Err(KvError::new(Failure::InvalidData, quoted_message("Value of key \"", key, "\" is not a string."))),
            Some(Some(v)) => Ok(v),
        },
    }
}

/// Stores `value` under `key`, starting from an empty store where loading
/// failed; an existing key is overwritten only with `force`. Gives the new
/// store, to be saved, and a confirmation.
pub fn set(loaded: Result<Store, KvError>, key: &str, value: &str, force: bool) -> (r: Result<(Store, String), KvError>)
    ensures
        match set_spec(loaded_view(loaded), key@, value@, force) {
            Ok(c) => r is Ok && r->Ok_0.0@ == c && r->Ok_0.1@ == set_message(key@, value@),
            Err(f) => r is Err && r->Err_0.kind == f
                && r->Err_0.message@ == already_present_message(key@),
        },
        r is Ok ==> r->Ok_0.0.wf() && r->Ok_0.0.others() == match loaded {
            Ok(s) => s.others(),
            Err(_) => Map::empty(),
        }.remove(key@),
{
    let mut map = match loaded {
        Ok(store) => store.map,
        Err(_) => new_object(),
    };
    if object_has(&map, key) && !force {
        return Err(KvError::new(Failure::AlreadyExists, quoted_message("Key \"", key, "\" already present. (Use --force to overwrite.)")));
    }
    object_insert(&mut map, key, value);
    let message = String::from_str("Key \"").concat(key).concat("\" set to value \"").concat(value).concat("\".");
    Ok((Store { map }, message))
}

/// Removes `key`. Gives the new store, to be saved, and a confirmation.
pub fn delete(loaded: Result<Store, KvError>, key: &str) -> (r: Result<(Store, String), KvError>)
    ensures
        match delete_spec(loaded_view(loaded), key@) {
            Ok(c) => r is Ok && r->Ok_0.0@ == c && r->Ok_0.1@ == deleted_message(key@),
            Err(f) => r is Err && r->Err_0.kind == f,
        },
        loaded is Err ==> r == Err::<(Store, String), KvError>(loaded->Err_0),
        loaded is Ok && !loaded->Ok_0@.contains_key(key@) ==> r->Err_0.message@
            == not_found_message(key@),
        r is Ok ==> r->Ok_0.0.wf() && r->Ok_0.0.others() == loaded->Ok_0.others().remove(key@),
{
    match loaded {
        Err(e) => Err(e),
        Ok(store) => {
            let mut map = store.map;
            if !object_has(&map, key) {
                return Err(KvError::new(Failure::NotFound, quoted_message("Key \"", key, "\" not found.")));
            }
            object_remove(&mut map, key);
            Ok((Store { map }, quoted_message("Deleted key \"", key, "\".")))
        },
    }
}

/// The entries of `store`, one line `key sep value` each, in the store's
/// order, joined by newlines.
fn listing(store: &Store, sep: &str) -> (r: Result<String, KvError>)
    ensures
        is_listing(r, *store, sep@),
        store.wf(),
{
    let entries = object_entries(&store.map);
    let ghost keys = store.order();
    let mut text = String::new();
    let mut i: usize = 0;
    while i < entries.len()
        invariant
            entries@.len() == keys.len(),
            keys == store.order(),
            forall|j: int| 0 <= j < entries@.len() ==> #[trigger] entries@[j].0@ == keys[j],
            forall|j: int|
                0 <= j < entries@.len() ==> store@.contains_key(#[trigger] entries@[j].0@)
                    && crate::json::text_view(entries@[j].1) == store@[entries@[j].0@],
            forall|k: Seq<char>|
                #[trigger] store@.contains_key(k) ==> exists|j: int|
                    0 <= j < entries@.len() && #[trigger] entries@[j].0@ == k,
            forall|a: int, b: int| 0 <= a < b < entries@.len() ==> entries@[a].0@ != entries@[b].0@,
            0 <= i <= entries@.len(),
            entry_lines(keys.take(i as int), store@, sep@) is Ok,
            text@ == join_lines(entry_lines(keys.take(i as int), store@, sep@)->Ok_0),
            entry_lines(keys.take(i as int), store@, sep@)->Ok_0.len() == i,
        decreases entries@.len() - i,
    {
        let ghost before = keys.take(i as int);
        let ghost after = keys.take(i as int + 1);
        assert(after.drop_last() =~= before);
        assert(after.last() == keys[i as int]);
        let (key, value) = (&entries[i].0, &entries[i].1);
        match value {
            None => {
                let e = KvError::new(Failure::InvalidData, quoted_message("Value of key \"", key.as_str(), "\" is not a string."));
                proof {
                    lemma_first_bad_stays(keys, store@, sep@, i as int + 1);
                    lemma_order_lists_keys(*store, entries@);
                }
                return Err(e);
            },
            Some(v) => {
                let line = String::from_str(key.as_str()).concat(sep).concat(v.as_str());
                proof {
                    let lines = entry_lines(before, store@, sep@)->Ok_0;
                    let added = lines.push(entry_line(key@, sep@, v@));
                    assert(entry_lines(after, store@, sep@) == Ok::<Seq<Seq<char>>, Seq<char>>(added));
                    assert(added.drop_last() =~= lines);
                }
                push_line(&mut text, i > 0, line.as_str());
            },
        }
        i = i + 1;
    }
    proof {
        lemma_order_lists_keys(*store, entries@);
    }
    assert(keys.take(i as int) =~= keys);
    Ok(text)
}

/// A listing of each entry once, in the store's order, shows that this order
/// lists each key of the store once.
proof fn lemma_order_lists_keys(store: Store, entries: Seq<(String, Option<String>)>)
    requires
        entries.len() == store.order().len(),
        forall|j: int| 0 <= j < entries.len() ==> #[trigger] entries[j].0@ == store.order()[j],
        forall|j: int| 0 <= j < entries.len() ==> store@.contains_key(#[trigger] entries[j].0@),
        forall|k: Seq<char>|
            #[trigger] store@.contains_key(k) ==> exists|j: int| 0 <= j < entries.len() && #[trigger] entries[j].0@ == k,
        forall|i: int, j: int| 0 <= i < j < entries.len() ==> entries[i].0@ != entries[j].0@,
    ensures
        store.wf(),
{
    let keys = store.order();
    assert(keys.no_duplicates()) by {
        assert forall|i: int, j: int| 0 <= i < keys.len() && 0 <= j < keys.len() && i != j implies keys[i] != keys[j] by {
            assert(entries[i].0@ == keys[i]);
            assert(entries[j].0@ == keys[j]);
        }
    }
    assert forall|k: Seq<char>| store@.dom().contains(k) <==> keys.to_set().contains(k) by {
        if store@.contains_key(k) {
            let j = choose|j: int| 0 <= j < entries.len() && #[trigger] entries[j].0@ == k;
            assert(keys[j] == k);
        }
        if keys.contains(k) {
            let j = choose|j: int| 0 <= j < keys.len() && keys[j] == k;
            assert(entries[j].0@ == k);
        }
    }
    assert(store@.dom() =~= keys.to_set());
}

/// Once a prefix of `keys` meets a value that is not a string, every longer
/// prefix reports that same key.
proof fn lemma_first_bad_stays(keys: Seq<Seq<char>>, c: Contents, sep: Seq<char>, n: int)
    requires
        0 <= n <= keys.len(),
        entry_lines(keys.take(n), c, sep) is Err,
    ensures
        entry_lines(keys, c, sep) == entry_lines(keys.take(n), c, sep),
    decreases keys.len() - n,
{
    if n < keys.len() {
        let longer = keys.take(n + 1);
        assert(longer.drop_last() =~= keys.take(n));
        lemma_first_bad_stays(keys, c, sep, n + 1);
    } else {
        assert(keys.take(n) =~= keys);
    }
}

/// The entries as lines `key -> value`, or a fixed message where the store is
/// empty or could not be loaded.
pub fn list(loaded: Result<Store, KvError>) -> (r: Result<String, KvError>)
    ensures
        match loaded {
            Err(_) => r is Ok && r->Ok_0@ == no_keys_message(),
            Ok(s) => if s@.dom() == Set::<Seq<char>>::empty() {
                r is Ok && r->Ok_0@ == no_keys_message()
            } else {
                is_listing(r, s, " -> "@)
            },
        },
        loaded is Ok && loaded->Ok_0@.dom() != Set::<Seq<char>>::empty() ==> loaded->Ok_0.wf(),
{
    match loaded {
        Err(_) => Ok(String::from_str("No keys found.")),
        Ok(store) => if object_is_empty(&store.map) {
            Ok(String::from_str("No keys found."))
        } else {
            listing(&store, " -> ")
        },
    }
}

/// The entries as lines `key:value`, for completing keys in a shell.
pub fn complete_keys(loaded: Result<Store, KvError>) -> (r: Result<String, KvError>)
    ensures
        loaded is Err ==> r == Err::<String, KvError>(loaded->Err_0),
        loaded is Ok ==> is_listing(r, loaded->Ok_0, ":"@) && loaded->Ok_0.wf(),
{
    match loaded {
        Err(e) => Err(e),
        Ok(store) => listing(&store, ":"),
    }
}

} // verus!
