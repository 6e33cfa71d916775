use kv::{complete_commands, Command};

fn cmd(name: &str, about: Option<&str>) -> Command {
    Command { name: name.to_string(), about: about.map(|s| s.to_string()) }
}

#[test]
fn commands_with_descriptions() {
    let cmds = vec![
        cmd("delete", Some("Deletes key:value pairs.")),
        cmd("get", Some("Gets the value for a given key.")),
        cmd("list", Some("Lists all key:value pairs.")),
        cmd("set", Some("Sets a value for a key.")),
        cmd("complete-commands", None),
        cmd("complete-keys", None),
        cmd("help", None),
    ];
    assert_eq!(
        complete_commands(&cmds),
        "delete:Deletes key:value pairs.\nget:Gets the value for a given key.\nlist:Lists all key:value pairs.\nset:Sets a value for a key."
    );
}

#[test]
fn completion_commands_are_hidden_even_with_description() {
    let cmds = vec![cmd("complete-x", Some("hidden")), cmd("comp", Some("shown"))];
    assert_eq!(complete_commands(&cmds), "comp:shown");
}

#[test]
fn no_commands() {
    assert_eq!(complete_commands(&vec![]), "");
}
