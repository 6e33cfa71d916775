use vstd::prelude::*;
use vstd::string::*;

verus! {

/// `name` adjoined to the directory `dir`, with one `/` between them unless
/// `dir` is empty or already ends in one.
pub open spec fn joined(dir: Seq<char>, name: Seq<char>) -> Seq<char> {
    if dir.len() == 0 || dir.last() == '/' {
        dir + name
    } else {
        dir + seq!['/'] + name
    }
}

/// Where the store file lives: `kv.json` in the data home when that is a
/// directory, `.kv.json` in the home directory otherwise.
pub open spec fn data_file_path(data_home: Seq<char>, data_home_is_dir: bool, home: Seq<char>) -> Seq<char> {
    if data_home_is_dir {
        joined(data_home, "kv.json"@)
    } else {
        joined(home, ".kv.json"@)
    }
}

fn join(dir: &str, name: &str) -> (r: String)
    ensures
        r@ == joined(dir@, name@),
{
    let n = dir.unicode_len();
    if n == 0 || dir.get_char(n - 1) == '/' {
        String::from_str(dir).concat(name)
    } else {
        proof {
            reveal_strlit("/");
        }
        String::from_str(dir).concat("/").concat(name)
    }
}

/// The path of the store file, given the data home directory, whether it
/// exists as a directory, and the home directory.
pub fn file_path(data_home: &str, data_home_is_dir: bool, home: &str) -> (r: String)
    ensures
        r@ == data_file_path(data_home@, data_home_is_dir, home@),
{
    if data_home_is_dir {
        join(data_home, "kv.json")
    } else {
        join(home, ".kv.json")
    }
}

} // verus!
