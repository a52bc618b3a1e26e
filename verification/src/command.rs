//! The command line: `mkcbz OUTPUT DIRECTORY` or `mkcbz OUTPUT FILE FILE...`,
//! where OUTPUT `-` stands for standard output.

use vstd::prelude::*;

verus! {

/// Where the archive goes.
pub enum Output {
    /// Standard output (the argument `-`).
    Stdout,
    /// The file at this path.
    File(String),
}

/// Where the images come from.
pub enum Inputs {
    /// Every file in this directory (the one input argument).
    Directory(String),
    /// These files (two or more input arguments).
    Files(Vec<String>),
}

/// What the command line asks for.
pub struct Command {
    pub output: Output,
    pub inputs: Inputs,
}

/// A command line that asks for nothing.
#[derive(Clone, Copy, Debug, PartialEq, Eq, Structural)]
pub enum ArgsError {
    /// Fewer than two arguments follow the program name.
    TooFewArguments,
}

/// `cmd` is what the command line `args` (program name first) asks for.
pub open spec fn describes(args: Seq<String>, cmd: Command) -> bool {
    &&& match cmd.output {
        Output::Stdout => args[1]@ == seq!['-'],
        Output::File(path) => args[1]@ != seq!['-'] && path == args[1],
    }
    &&& match cmd.inputs {
        Inputs::Directory(dir) => args.len() == 3 && dir == args[2],
        Inputs::Files(files) => args.len() > 3 && files@ == args.subrange(2, args.len() as int),
    }
}

/// Reads the command line `args`, program name first.
pub fn parse_args(args: Vec<String>) -> (r: Result<Command, ArgsError>)
    ensures
        args@.len() < 3 ==> r == Err::<Command, ArgsError>(ArgsError::TooFewArguments),
        args@.len() >= 3 ==> (r matches Ok(cmd) && describes(args@, cmd)),
{
    let ghost all = args@;
    let mut args = args;
    if args.len() < 3 {
        return Err(ArgsError::TooFewArguments);
    }
    let mut rest = args.split_off(2);
    assert(rest@ =~= all.subrange(2, all.len() as int));
    let out = match args.pop() {
        Some(out) => out,
        None => {
            return Err(ArgsError::TooFewArguments);
        },
    };
    let dash = "-".to_owned();
    proof {
        reveal_strlit("-");
    }
    assert(dash@ == seq!['-']);
    let output = if out == dash {
        Output::Stdout
    } else {
        Output::File(out)
    };
    let inputs = if rest.len() == 1 {
        match rest.pop() {
            Some(dir) => Inputs::Directory(dir),
            None => Inputs::Files(rest),
        }
    } else {
        Inputs::Files(rest)
    };
    Ok(Command { output, inputs })
}

} // verus!
