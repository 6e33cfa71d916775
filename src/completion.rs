use vstd::prelude::*;
use vstd::string::*;

use crate::json::text_view;
use crate::text::{join_lines, push_line};

verus! {

/// A subcommand as the command-line interface registers it.
pub struct Command {
    pub name: String,
    pub about: Option<String>,
}

/// Whether `name` begins with `prefix`.
pub open spec fn has_prefix(name: Seq<char>, prefix: Seq<char>) -> bool {
    prefix.len() <= name.len() && name.subrange(0, prefix.len() as int) == prefix
}

/// Whether a command is offered for completion: it has a description and its
/// name does not begin with `complete`.
pub open spec fn is_offered(c: Command) -> bool {
    !has_prefix(c.name@, "complete"@) && c.about is Some
}

/// The lines `name:description` of the offered commands, in order.
pub open spec fn command_lines(cmds: Seq<Command>) -> Seq<Seq<char>>
    decreases cmds.len(),
{
    if cmds.len() == 0 {
        Seq::empty()
    } else {
        let rest = command_lines(cmds.drop_last());
        let c = cmds.last();
        if is_offered(c) {
            rest.push(c.name@ + ":"@ + text_view(c.about)->Some_0)
        } else {
            rest
        }
    }
}

fn starts_with(name: &str, prefix: &str) -> (r: bool)
    ensures
        r == has_prefix(name@, prefix@),
{
    let n = name.unicode_len();
    let p = prefix.unicode_len();
    if p > n {
        return false;
    }
    let mut i: usize = 0;
    while i < p
        invariant
            p == prefix@.len(),
            n == name@.len(),
            p <= n,
            0 <= i <= p,
            forall|j: int| 0 <= j < i ==> name@[j] == prefix@[j],
        decreases p - i,
    {
        if name.get_char(i) != prefix.get_char(i) {
            return false;
        }
        i = i + 1;
    }
    assert(name@.subrange(0, p as int) =~= prefix@);
    true
}

/// The offered commands as lines `name:description`, joined by newlines.
pub fn complete_commands(cmds: &Vec<Command>) -> (r: String)
    ensures
        r@ == join_lines(command_lines(cmds@)),
{
    let mut text = String::new();
    let mut any = false;
    let mut i: usize = 0;
    while i < cmds.len()
        invariant
            0 <= i <= cmds@.len(),
            text@ == join_lines(command_lines(cmds@.take(i as int))),
            any == (command_lines(cmds@.take(i as int)).len() > 0),
        decreases cmds@.len() - i,
    {
        let ghost before = cmds@.take(i as int);
        let ghost after = cmds@.take(i as int + 1);
        assert(after.drop_last() =~= before);
        let c = &cmds[i];
        if !starts_with(c.name.as_str(), "complete") {
            match &c.about {
                Some(about) => {
                    let line = String::from_str(c.name.as_str()).concat(":").concat(about.as_str());
                    proof {
                        let added = command_lines(before).push(line@);
                        assert(added.drop_last() =~= command_lines(before));
                    }
                    push_line(&mut text, any, line.as_str());
                    any = true;
                },
                None => {},
            }
        }
        i = i + 1;
    }
    assert(cmds@.take(i as int) =~= cmds@);
    text
}

} // verus!
