//! The program's arguments. For now this is a single input file; a network
//! stream could be added later.

use vstd::prelude::*;

verus! {

/// The inputs the program takes.
pub struct CliArgs {
    pub input_file_path: String,
}

/// Why the arguments give no inputs.
#[derive(Debug)]
pub enum CliError {
    /// No input file was given.
    NoInputFile,
}

/// Builds `CliArgs` from the program's arguments, the program's own name
/// first: the input file is the argument after it.
///
/// # Errors
///
/// `CliError::NoInputFile` where there is no argument after the program's
/// name.
pub fn parse_cli_args(args: &Vec<String>) -> (r: Result<CliArgs, CliError>)
    ensures
        args.len() > 1 ==> (r matches Ok(a) && a.input_file_path@ == args[1]@),
        args.len() <= 1 ==> r matches Err(CliError::NoInputFile),
{
    if args.len() > 1 {
        Ok(CliArgs { input_file_path: args[1].clone() })
    } else {
        Err(CliError::NoInputFile)
    }
}

} // verus!
