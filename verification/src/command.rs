//! The command line of a recording session: `--name value`, `--flag`,
//! `-n value` and `-f`, read into `Options`.

use vstd::prelude::*;

use crate::arguments::views;
use crate::options::{empty_options, opt_view, spec_set_flag, spec_set_value, Options, OptionsView};
use crate::text;

verus! {

/// The state of reading a command line: the options so far and the name
/// that awaits a value.
pub struct CommandState {
    pub options: OptionsView,
    pub previous: Option<Seq<char>>,
}

/// Whether `argument` asks for help.
pub open spec fn asks_help(argument: Seq<char>) -> bool {
    argument == "-h"@ || argument == "--help"@
}

/// Whether `argument` takes two bytes in UTF-8: two characters, the second
/// of them ASCII (the first is `-`).
pub open spec fn two_bytes(argument: Seq<char>) -> bool {
    argument.len() == 2 && (argument[1] as u32) < 0x80
}

/// Takes a name that awaits a value as a flag set to `true`.
pub open spec fn flush(st: CommandState) -> Option<OptionsView> {
    match st.previous {
        Some(name) => spec_set_flag(st.options, name, true),
        None => Some(st.options),
    }
}

/// One argument; `None` where the usage is to be shown instead.
pub open spec fn command_step(st: CommandState, argument: Seq<char>) -> Option<CommandState> {
    if asks_help(argument) {
        None
    } else if text::has_prefix(argument, "--"@) {
        if argument.len() < 3 {
            None
        } else {
            match flush(st) {
                Some(o) => Some(CommandState { options: o, previous: Some(argument.skip(2)) }),
                None => None,
            }
        }
    } else if text::has_prefix(argument, "-"@) {
        if !two_bytes(argument) {
            None
        } else {
            match flush(st) {
                Some(o) => Some(CommandState { options: o, previous: Some(argument.skip(1)) }),
                None => None,
            }
        }
    } else {
        match st.previous {
            Some(name) => match spec_set_value(st.options, name, argument) {
                Some(o) => Some(CommandState { options: o, previous: None }),
                None => None,
            },
            None => None,
        }
    }
}

/// The state after the arguments.
pub open spec fn command_run(arguments: Seq<Seq<char>>) -> Option<CommandState>
    decreases arguments.len(),
{
    if arguments.len() == 0 {
        Some(CommandState { options: empty_options(), previous: None })
    } else {
        match command_run(arguments.drop_last()) {
            Some(st) => command_step(st, arguments.last()),
            None => None,
        }
    }
}

/// The options that a command line gives; `None` where the usage is to be
/// shown: help is asked for, an option is malformed or unknown, or a value
/// has no name before it.
pub open spec fn spec_options(arguments: Seq<Seq<char>>) -> Option<OptionsView> {
    match command_run(arguments) {
        Some(st) => flush(st),
        None => None,
    }
}

proof fn lemma_run_fails_onward(arguments: Seq<Seq<char>>, k: int)
    requires
        0 <= k <= arguments.len(),
        command_run(arguments.take(k)) is None,
    ensures
        command_run(arguments) is None,
    decreases arguments.len(),
{
    if k < arguments.len() {
        assert(arguments.drop_last().take(k) =~= arguments.take(k));
        lemma_run_fails_onward(arguments.drop_last(), k);
    } else {
        assert(arguments.take(k) =~= arguments);
    }
}

/// A command line that asks for help anywhere gives the usage, whatever
/// else it holds.
pub proof fn law_help(arguments: Seq<Seq<char>>, i: int)
    requires
        0 <= i < arguments.len(),
        asks_help(arguments[i]),
    ensures
        spec_options(arguments) is None,
{
    let prefix = arguments.take(i + 1);
    assert(prefix.drop_last() =~= arguments.take(i));
    assert(prefix.last() == arguments[i]);
    lemma_run_fails_onward(arguments, i + 1);
}

/// `--config path` at the end of a valid command line sets the
/// configuration file to `path`, where `path` does not begin with `-`.
pub proof fn law_config(arguments: Seq<Seq<char>>, path: Seq<char>)
    requires
        spec_options(arguments) is Some,
        !text::has_prefix(path, "-"@),
    ensures
        spec_options(arguments + seq![seq!['-', '-'] + "config"@, path]) == Some(
            OptionsView { config: Some(path), ..spec_options(arguments)->0 },
        ),
{
    reveal_strlit("config");
    reveal_strlit("-");
    reveal_strlit("--");
    reveal_strlit("-h");
    reveal_strlit("--help");
    let option = seq!['-', '-'] + "config"@;
    let all = arguments + seq![option, path];
    assert(all.drop_last().drop_last() =~= arguments);
    assert(all.drop_last().last() == option);
    assert(all.last() == path);
    assert(option.skip(2) =~= "config"@);
    assert(option.take(2) =~= "--"@);
    assert(!asks_help(option)) by {
        assert(option.len() == 8);
    }
    assert(!asks_help(path)) by {
        if path == "-h"@ || path == "--help"@ {
            assert(path.take(1) =~= "-"@);
        }
    }
    assert(!text::has_prefix(path, "--"@)) by {
        if text::has_prefix(path, "--"@) {
            assert(path.take(1) =~= "-"@);
        }
    }
    let st = command_run(arguments)->0;
    let o = flush(st)->0;
    assert(command_run(all.drop_last()) == command_step(st, option));
    assert(command_run(all.drop_last()) == Some(CommandState { options: o, previous: Some("config"@) }));
    assert(command_run(all) == command_step(command_run(all.drop_last())->0, path));
}

/// Reads the arguments of a command line, the program's name left out;
/// `None` where the usage is to be shown (see `spec_options`).
pub fn options(arguments: Vec<String>) -> (res: Option<Options>)
    ensures
        match res {
            Some(o) => spec_options(views(arguments@)) == Some(o@),
            None => spec_options(views(arguments@)) is None,
        },
{
    proof {
        reveal_strlit("-h");
        reveal_strlit("--help");
        reveal_strlit("--");
        reveal_strlit("-");
    }
    let mut options = Options::new();
    let mut previous: Option<String> = None;
    let mut i: usize = 0;
    while i < arguments.len()
        invariant
            i <= arguments@.len(),
            command_run(views(arguments@.take(i as int))) == Some(
                CommandState { options: options@, previous: opt_view(previous) },
            ),
        decreases arguments.len() - i,
    {
        proof {
            reveal_strlit("-h");
            reveal_strlit("--help");
            reveal_strlit("--");
            reveal_strlit("-");
        }
        let argument = arguments[i].as_str();
        proof {
            assert(views(arguments@.take(i + 1)).drop_last() =~= views(arguments@.take(i as int)));
            assert(views(arguments@.take(i + 1)).last() == argument@);
            assert(views(arguments@).take(i + 1) =~= views(arguments@.take(i + 1)));
        }
        if text::equals(argument, "-h") || text::equals(argument, "--help") {
            proof {
                lemma_run_fails_onward(views(arguments@), i + 1);
            }
            return None;
        }
        let dashes = text::starts_with(argument, "--");
        let dash = text::starts_with(argument, "-");
        if dashes || dash {
            let skip: usize = if dashes { 2 } else { 1 };
            let len = argument.unicode_len();
            let malformed = if dashes {
                len < 3
            } else {
                len != 2 || argument.get_char(1) as u32 >= 0x80
            };
            if malformed {
                proof {
                    lemma_run_fails_onward(views(arguments@), i + 1);
                }
                return None;
            }
            match previous {
                Some(name) => {
                    if !options.set_flag(name, true) {
                        proof {
                            lemma_run_fails_onward(views(arguments@), i + 1);
                        }
                        return None;
                    }
                },
                None => {},
            }
            let rest = argument.substring_char(skip, len);
            assert(rest@ =~= argument@.skip(skip as int));
            previous = Some(rest.to_string());
        } else {
            match previous {
                Some(name) => {
                    if !options.set_value(name, argument.to_string()) {
                        proof {
                            lemma_run_fails_onward(views(arguments@), i + 1);
                        }
                        return None;
                    }
                    previous = None;
                },
                None => {
                    proof {
                        lemma_run_fails_onward(views(arguments@), i + 1);
                    }
                    return None;
                },
            }
        }
        i = i + 1;
    }
    assert(arguments@.take(arguments.len() as int) =~= arguments@);
    match previous {
        Some(name) => {
            if !options.set_flag(name, true) {
                return None;
            }
        },
        None => {},
    }
    Some(options)
}


/// The commands of the tool.
#[derive(Clone, Copy, Debug, PartialEq, Eq, Structural)]
pub enum Command {
    /// Record the power of systems that arrive through a queue.
    Dynamic,
    /// Record the area and the leakage power of one system.
    Static,
}

/// The command that `name` names: `dynamic` or `static`; any other name is
/// unknown.
pub fn command(name: &str) -> (res: crate::error::Result<Command>)
    ensures
        name@ == "dynamic"@ ==> res == Ok::<Command, crate::error::Error>(Command::Dynamic),
        name@ == "static"@ ==> res == Ok::<Command, crate::error::Error>(Command::Static),
        name@ != "dynamic"@ && name@ != "static"@ ==> res == Err::<
            Command,
            crate::error::Error,
        >(
            crate::error::Error::UnknownCommand,
        ),
{
    proof {
        reveal_strlit("dynamic");
        reveal_strlit("static");
        assert("dynamic"@ != "static"@) by {
            assert("dynamic"@.len() == 7);
        }
    }
    if text::equals(name, "dynamic") {
        Ok(Command::Dynamic)
    } else if text::equals(name, "static") {
        Ok(Command::Static)
    } else {
        Err(crate::error::Error::UnknownCommand)
    }
}

} // verus!
