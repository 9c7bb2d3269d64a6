//! The command line: `--config <path>` (or `-c`), or `--help` (or `-h`).

use vstd::prelude::*;
use crate::text::text_eq;

verus! {

/// What the command line asks for.
#[derive(Debug, PartialEq, Eq)]
pub enum CliCommand {
    /// Run with the configuration file at this path.
    Run { config_path: String },
    /// Print the usage text and exit successfully.
    Help,
}

/// Why the command line was refused.
#[derive(Debug, PartialEq, Eq)]
pub enum CliError {
    /// `--config` came last, without a path after it.
    MissingConfigValue,
    /// An argument that is no option of the program.
    UnknownArgument(String),
    /// No `--config <path>` was given.
    MissingConfig,
}

/// What a command line means, in terms of the arguments' characters.
pub enum ArgsMeaning {
    Run(Seq<char>),
    Help,
    MissingConfigValue,
    UnknownArgument(Seq<char>),
    MissingConfig,
}

/// `a` is the option that names the configuration file.
pub open spec fn is_config_flag(a: Seq<char>) -> bool {
    a == "--config"@ || a == "-c"@
}

/// `a` is the option that asks for help.
pub open spec fn is_help_flag(a: Seq<char>) -> bool {
    a == "--help"@ || a == "-h"@
}

/// The meaning of the arguments from index `i` on, with `path` the
/// configuration path named so far: options are read in order, a later
/// `--config` overrides an earlier one, and `--help` stops the reading.
pub open spec fn args_meaning_from(args: Seq<Seq<char>>, i: int, path: Option<Seq<char>>) -> ArgsMeaning
    decreases args.len() - i,
{
    if i < 0 || i >= args.len() {
        match path {
            Some(p) => ArgsMeaning::Run(p),
            None => ArgsMeaning::MissingConfig,
        }
    } else if is_config_flag(args[i]) {
        if i + 1 >= args.len() {
            ArgsMeaning::MissingConfigValue
        } else {
            args_meaning_from(args, i + 2, Some(args[i + 1]))
        }
    } else if is_help_flag(args[i]) {
        ArgsMeaning::Help
    } else {
        ArgsMeaning::UnknownArgument(args[i])
    }
}

/// The meaning of a whole command line, whose first argument is the program.
pub open spec fn args_meaning(args: Seq<Seq<char>>) -> ArgsMeaning {
    args_meaning_from(args, 1, None)
}

/// The meaning that a result of `parse_args` carries.
pub open spec fn meaning_of(r: Result<CliCommand, CliError>) -> ArgsMeaning {
    match r {
        Ok(CliCommand::Run { config_path }) => ArgsMeaning::Run(config_path@),
        Ok(CliCommand::Help) => ArgsMeaning::Help,
        Err(CliError::MissingConfigValue) => ArgsMeaning::MissingConfigValue,
        Err(CliError::UnknownArgument(a)) => ArgsMeaning::UnknownArgument(a@),
        Err(CliError::MissingConfig) => ArgsMeaning::MissingConfig,
    }
}

/// The characters of each argument.
pub open spec fn arg_texts(args: Seq<String>) -> Seq<Seq<char>> {
    args.map_values(|a: String| a@)
}

/// Reads the command line (the program's name first).
pub fn parse_args(args: &[String]) -> (r: Result<CliCommand, CliError>)
    ensures
        meaning_of(r) == args_meaning(arg_texts(args@)),
{
    let ghost texts = arg_texts(args@);
    let n = args.len();
    let mut config_path: Option<String> = None;
    let mut i: usize = 1;
    while i < n
        invariant
            1 <= i,
            n == args@.len(),
            texts == arg_texts(args@),
            args_meaning_from(
                texts,
                i as int,
                match config_path {
                    Some(p) => Some(p@),
                    None => None,
                },
            ) == args_meaning(texts),
        decreases n - i,
    {
        let arg = &args[i];
        assert(texts[i as int] == arg@);
        if text_eq(arg.as_str(), "--config") || text_eq(arg.as_str(), "-c") {
            if i + 1 >= n {
                return Err(CliError::MissingConfigValue);
            }
            assert(texts[i + 1] == args@[i + 1]@);
            config_path = Some(args[i + 1].clone());
            i = i + 2;
        } else if text_eq(arg.as_str(), "--help") || text_eq(arg.as_str(), "-h") {
            return Ok(CliCommand::Help);
        } else {
            return Err(CliError::UnknownArgument(arg.clone()));
        }
    }
    match config_path {
        Some(p) => Ok(CliCommand::Run { config_path: p }),
        None => Err(CliError::MissingConfig),
    }
}

} // verus!
