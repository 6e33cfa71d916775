use vstd::prelude::*;

use crate::error::{Failure, KvError};
use crate::json::{
    error_text, json_contents, json_order, json_others, json_reading, json_text, keys_in_order,
    new_object, object_text, parse_object, JsonMap,
};
use crate::text::not_object_message;

verus! {

/// What a store holds: each key with `Some(s)` where its value is the string
/// `s`, and `None` where the file gives it a value that is not a string.
pub type Contents = Map<Seq<char>, Option<Seq<char>>>;

/// The mapping read from the store file, ready to be changed and written back.
pub struct Store {
    pub map: JsonMap,
}

impl View for Store {
    type V = Contents;

    open spec fn view(&self) -> Contents {
        json_contents(self.map)
    }
}

impl Store {
    /// The keys in the order in which the store walks them.
    pub open spec fn order(&self) -> Seq<Seq<char>> {
        json_order(self.map)
    }

    /// The values that are not strings, each as its JSON text.
    pub open spec fn others(&self) -> Map<Seq<char>, Seq<char>> {
        json_others(self.map)
    }

    /// The store's order lists each of its keys once, and nothing else.
    pub open spec fn wf(&self) -> bool {
        keys_in_order(self.map)
    }

    /// A store with no entries.
    pub fn new() -> (r: Store)
        ensures
            r@.dom() == Set::<Seq<char>>::empty(),
            r.others().dom() == Set::<Seq<char>>::empty(),
            r.wf(),
    {
        Store { map: new_object() }
    }

    /// The store that holds the given JSON object.
    pub fn from_map(map: JsonMap) -> (r: Store)
        ensures
            r@ == json_contents(map),
            r.order() == json_order(map),
    {
        Store { map }
    }

    /// The JSON text of the whole store, as it is written to the file.
    pub fn save_json(&self) -> (r: String)
        ensures
            r@ == json_text(self.map),
    {
        object_text(&self.map)
    }
}

/// What loading gave, seen as contents or as the class of its failure.
pub open spec fn loaded_view(loaded: Result<Store, KvError>) -> Result<Contents, Failure> {
    match loaded {
        Ok(s) => Ok(s@),
        Err(e) => Err(e.kind),
    }
}

/// The store held by a parsed JSON value, given that value's object if it is
/// one: an error where it is not.
pub fn from_object(object: Option<JsonMap>) -> (r: Result<Store, KvError>)
    ensures
        object is None ==> r is Err && r->Err_0.kind == Failure::InvalidData
            && r->Err_0.message@ == not_object_message(),
        object is Some ==> r is Ok && r->Ok_0@ == json_contents(object->Some_0)
            && r->Ok_0.order() == json_order(object->Some_0),
{
    match object {
        Some(map) => Ok(Store::from_map(map)),
        None => Err(KvError::new(Failure::InvalidData, String::from_str("Data in file was not an object."))),
    }
}

/// Loads the store from what reading its file gave: the file's text, or the
/// error that reading it met.
pub fn load_json(read: Result<String, KvError>) -> (r: Result<Store, KvError>)
    ensures
        read is Err ==> r == Err::<Store, KvError>(read->Err_0),
        read is Ok && json_reading(read->Ok_0@) is None ==> r is Err && r->Err_0.kind
            == Failure::Parse,
        read is Ok && json_reading(read->Ok_0@) == Some(None::<Contents>) ==> r is Err
            && r->Err_0.kind == Failure::InvalidData && r->Err_0.message@ == not_object_message(),
        read is Ok && json_reading(read->Ok_0@) is Some && json_reading(read->Ok_0@)->Some_0 is Some
            ==> r is Ok && r->Ok_0@ == json_reading(read->Ok_0@)->Some_0->Some_0 && r->Ok_0.wf(),
        read is Ok && r is Ok ==> r->Ok_0@ == json_reading(read->Ok_0@)->Some_0->Some_0,
{
    match read {
        Err(e) => Err(e),
        Ok(text) => match parse_object(text.as_str()) {
            Err(e) => Err(KvError::new(Failure::Parse, error_text(&e))),
            Ok(object) => from_object(object),
        },
    }
}

} // verus!
