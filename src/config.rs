use vstd::prelude::*;
use vstd::string::StrSliceExecFns;

verus! {

/// Which statistics to compute for a file.
#[derive(Clone, Copy, Debug, PartialEq, Eq, Structural)]
pub enum CountMode {
    Bytes,
    Lines,
    Characters,
    Words,
    All,
}

/// The mode that a flag selects: `-c` bytes, `-l` lines, `-w` words and
/// `-m` characters. Any other flag selects all of lines, words and characters.
pub open spec fn mode_of_flag(flag: Seq<char>) -> CountMode {
    if flag == seq!['-', 'c'] {
        CountMode::Bytes
    } else if flag == seq!['-', 'l'] {
        CountMode::Lines
    } else if flag == seq!['-', 'w'] {
        CountMode::Words
    } else if flag == seq!['-', 'm'] {
        CountMode::Characters
    } else {
        CountMode::All
    }
}

/// The mode that an argument list selects: the flag after the filename, or
/// all of lines, words and characters where there is none.
pub open spec fn mode_of_args(args: Seq<String>) -> CountMode {
    if args.len() <= 2 {
        CountMode::All
    } else {
        mode_of_flag(args[2]@)
    }
}

/// What to count, and in which file.
pub struct Config {
    pub filename: String,
    pub mode: CountMode,
}

/// Whether `arg` is a dash followed by `letter`.
fn is_flag(arg: &str, letter: char) -> (r: bool)
    ensures
        r == (arg@ == seq!['-', letter]),
{
    if arg.unicode_len() != 2 {
        return false;
    }
    let r = arg.get_char(0) == '-' && arg.get_char(1) == letter;
    proof {
        if r {
            assert(arg@ =~= seq!['-', letter]);
        } else {
            assert(arg@[0] != '-' || arg@[1] != letter);
        }
    }
    r
}

fn flag_mode(flag: &str) -> (r: CountMode)
    ensures
        r == mode_of_flag(flag@),
{
    if is_flag(flag, 'c') {
        CountMode::Bytes
    } else if is_flag(flag, 'l') {
        CountMode::Lines
    } else if is_flag(flag, 'w') {
        CountMode::Words
    } else if is_flag(flag, 'm') {
        CountMode::Characters
    } else {
        CountMode::All
    }
}

impl Config {
    /// Reads a configuration from a program's arguments, the program's name
    /// first, then the filename and an optional flag. Fails when no filename
    /// is given.
    pub fn new(args: &[String]) -> (r: Result<Config, &'static str>)
        ensures
            r is Err <==> args@.len() < 2,
            r matches Err(e) ==> e@ == "not enough arguments"@,
            r matches Ok(c) ==> c.filename@ == args@[1]@ && c.mode == mode_of_args(args@),
    {
        let len = args.len();
        if len < 2 {
            return Err("not enough arguments");
        }
        let filename = args[1].clone();
        if len == 2 {
            return Ok(Config { filename: filename, mode: CountMode::All });
        }
        let mode = flag_mode(args[2].as_str());
        Ok(Config { filename: filename, mode: mode })
    }
}

} // verus!
