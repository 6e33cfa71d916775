use vstd::prelude::*;
use vstd::string::*;

verus! {

/// Lines joined by newlines, with no newline after the last.
pub open spec fn join_lines(lines: Seq<Seq<char>>) -> Seq<char>
    decreases lines.len(),
{
    if lines.len() == 0 {
        Seq::empty()
    } else if lines.len() == 1 {
        lines[0]
    } else {
        join_lines(lines.drop_last()) + "\n"@ + lines.last()
    }
}

/// `key`, then `sep`, then `value`: one line of a listing.
pub open spec fn entry_line(key: Seq<char>, sep: Seq<char>, value: Seq<char>) -> Seq<char> {
    key + sep + value
}

pub open spec fn not_found_message(key: Seq<char>) -> Seq<char> {
    "Key \""@ + key + "\" not found."@
}

pub open spec fn already_present_message(key: Seq<char>) -> Seq<char> {
    "Key \""@ + key + "\" already present. (Use --force to overwrite.)"@
}

pub open spec fn not_text_message(key: Seq<char>) -> Seq<char> {
    "Value of key \""@ + key + "\" is not a string."@
}

pub open spec fn not_object_message() -> Seq<char> {
    "Data in file was not an object."@
}

pub open spec fn set_message(key: Seq<char>, value: Seq<char>) -> Seq<char> {
    "Key \""@ + key + "\" set to value \""@ + value + "\"."@
}

pub open spec fn deleted_message(key: Seq<char>) -> Seq<char> {
    "Deleted key \""@ + key + "\"."@
}

pub open spec fn no_keys_message() -> Seq<char> {
    "No keys found."@
}

/// Appends `line` to the newline-joined `text`, which holds `any` lines.
pub(crate) fn push_line(text: &mut String, any: bool, line: &str)
    ensures
        final(text)@ == if any {
            old(text)@ + "\n"@ + line@
        } else {
            old(text)@ + line@
        },
{
    if any {
        text.append("\n");
    }
    text.append(line);
}

pub(crate) fn quoted_message(before: &str, key: &str, after: &str) -> (r: String)
    ensures
        r@ == before@ + key@ + after@,
{
    String::from_str(before).concat(key).concat(after)
}

} // verus!
