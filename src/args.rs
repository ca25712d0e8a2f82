//! The command line: one positional argument, the build's page address.
use vstd::prelude::*;

verus! {

pub struct Args {
    pub url: String,
}

/// Why the command line was refused.
#[derive(Debug, Clone, Copy, PartialEq, Eq, Structural)]
pub enum ArgsError {
    MissingUrl,
    TooManyArguments,
}

/// Reads the arguments that follow the program name: exactly one is taken as the URL.
pub fn parse_args(argv: &Vec<String>) -> (r: Result<Args, ArgsError>)
    ensures
        argv@.len() == 0 ==> r == Err::<Args, ArgsError>(ArgsError::MissingUrl),
        argv@.len() > 1 ==> r == Err::<Args, ArgsError>(ArgsError::TooManyArguments),
        argv@.len() == 1 ==> r is Ok && r->Ok_0.url@ == argv@[0]@,
{
    if argv.len() == 0 {
        Err(ArgsError::MissingUrl)
    } else if argv.len() > 1 {
        Err(ArgsError::TooManyArguments)
    } else {
        Ok(Args { url: String::from_str(argv[0].as_str()) })
    }
}

} // verus!
