use vstd::prelude::*;

verus! {

/// The classes of failure that a store operation can report.
#[derive(Clone, Copy, Debug, PartialEq, Eq, Structural)]
pub enum Failure {
    /// The store file could not be read or written.
    Io,
    /// The store file is not valid JSON.
    Parse,
    /// The JSON is not an object, or a stored value is not a string.
    InvalidData,
    /// The key is not in the store.
    NotFound,
    /// The key is already in the store and overwriting was not asked for.
    AlreadyExists,
}

/// A failure together with the message that is shown for it.
#[derive(Debug)]
pub struct KvError {
    pub kind: Failure,
    pub message: String,
}

impl KvError {
    pub fn new(kind: Failure, message: String) -> (r: KvError)
        ensures
            r.kind == kind,
            r.message@ == message@,
    {
        KvError { kind, message }
    }

    /// The message shown for this error.
    pub fn to_string(&self) -> (r: String)
        ensures
            r@ == self.message@,
    {
        self.message.clone()
    }
}

} // verus!
