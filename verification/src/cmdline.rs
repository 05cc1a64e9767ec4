//! The arguments of the command line.

use crate::text::same_text;
use vstd::prelude::*;

verus! {

/// What the command line asks for.
#[derive(Debug)]
pub enum Commands {
    Usage,
    Add(AddParams),
}

/// Why the command line could not be read.
#[derive(Debug)]
pub enum CmdLineError {
    MissingCommand,
    UnknownCommand(String),
    MissingParams(Commands),
}

/// Parameters of `add`.
#[derive(Debug)]
pub struct AddParams {
    pub pn: String,
    pub name: String,
}

impl Default for AddParams {
    fn default() -> (params: AddParams)
        ensures
            params.pn@ == Seq::<char>::empty(),
            params.name@ == Seq::<char>::empty(),
    {
        AddParams { pn: String::new(), name: String::new() }
    }
}

/// What a command line asks for, as plain values.
pub ghost enum Request {
    Usage,
    Add { pn: Seq<char>, name: Seq<char> },
    MissingCommand,
    UnknownCommand { word: Seq<char> },
    MissingAddParams,
}

/// What a reading of the command line says, as plain values.
pub open spec fn request(r: Result<Commands, CmdLineError>) -> Request {
    match r {
        Ok(Commands::Usage) => Request::Usage,
        Ok(Commands::Add(p)) => Request::Add { pn: p.pn@, name: p.name@ },
        Err(CmdLineError::MissingCommand) => Request::MissingCommand,
        Err(CmdLineError::UnknownCommand(word)) => Request::UnknownCommand { word: word@ },
        Err(CmdLineError::MissingParams(_)) => Request::MissingAddParams,
    }
}

/// What the arguments ask for. The first is the name of the program; the
/// second is the command: `-h` or `--help`, or `add` with a part number and a
/// name after it.
pub open spec fn request_of(args: Seq<Seq<char>>) -> Request {
    if args.len() < 2 {
        Request::MissingCommand
    } else if args[1] == "-h"@ || args[1] == "--help"@ {
        Request::Usage
    } else if args[1] == "add"@ {
        if args.len() < 4 {
            Request::MissingAddParams
        } else {
            Request::Add { pn: args[2], name: args[3] }
        }
    } else {
        Request::UnknownCommand { word: args[1] }
    }
}

/// What a list of arguments is, as plain values.
pub open spec fn arg_views(args: Seq<String>) -> Seq<Seq<char>> {
    args.map_values(|arg: String| arg@)
}

/// Whether the command is `add` with nothing filled in.
pub open spec fn empty_add(command: Commands) -> bool {
    command matches Commands::Add(p) && p.pn@.len() == 0 && p.name@.len() == 0
}

/// Reads the arguments after `add`.
fn parse_add(args: &Vec<String>) -> (r: Result<Commands, CmdLineError>)
    requires
        args@.len() >= 2,
        args@[1]@ == "add"@,
    ensures
        request(r) == request_of(arg_views(args@)),
        r is Ok <==> args@.len() >= 4,
        r matches Err(CmdLineError::MissingParams(command)) ==> empty_add(command),
{
    proof {
        reveal_strlit("-h");
        reveal_strlit("--help");
        reveal_strlit("add");
        assert("add"@.len() == 3 && "-h"@.len() == 2 && "--help"@.len() == 6);
        assert(arg_views(args@).len() == args@.len());
        assert(arg_views(args@)[1] == args@[1]@);
        if args@.len() >= 4 {
            assert(arg_views(args@)[2] == args@[2]@);
            assert(arg_views(args@)[3] == args@[3]@);
        }
    }
    if args.len() < 4 {
        return Err(CmdLineError::MissingParams(Commands::Add(AddParams::default())));
    }
    Ok(Commands::Add(AddParams { pn: args[2].clone(), name: args[3].clone() }))
}

/// Reads the command line.
pub fn parse_cmd_line(args: &Vec<String>) -> (r: Result<Commands, CmdLineError>)
    ensures
        request(r) == request_of(arg_views(args@)),
        r is Ok <==> request_of(arg_views(args@)) is Usage || request_of(arg_views(args@)) is Add,
        r matches Err(CmdLineError::MissingParams(command)) ==> empty_add(command),
{
    proof {
        assert(arg_views(args@).len() == args@.len());
        if args@.len() >= 2 {
            assert(arg_views(args@)[1] == args@[1]@);
        }
    }
    if args.len() < 2 {
        return Err(CmdLineError::MissingCommand);
    }
    let cmd = args[1].as_str();
    if same_text(cmd, "-h") || same_text(cmd, "--help") {
        Ok(Commands::Usage)
    } else if same_text(cmd, "add") {
        parse_add(args)
    } else {
        Err(CmdLineError::UnknownCommand(args[1].clone()))
    }
}

} // verus!
