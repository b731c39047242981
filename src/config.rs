//! Command-line arguments: a source path and a destination path.
use vstd::prelude::*;

verus! {

#[derive(Debug, Clone, Copy, PartialEq, Eq, Structural)]
pub enum ArgumentError {
    MissingSrc,
    MissingDst,
}

impl ArgumentError {
    /// What is missing, in words.
    pub fn message(&self) -> (r: &'static str)
        ensures
            *self == ArgumentError::MissingSrc ==> r@ == "Must specify src path"@,
            *self == ArgumentError::MissingDst ==> r@ == "Must specify dst path"@,
    {
        match self {
            ArgumentError::MissingSrc => "Must specify src path",
            ArgumentError::MissingDst => "Must specify dst path",
        }
    }
}

pub struct Config {
    pub src: String,
    pub dst: String,
}

impl Config {
    /// Reads the two paths from `args`, whose first entry is the program.
    pub fn new(args: &Vec<String>) -> (r: Result<Config, ArgumentError>)
        ensures
            args@.len() < 2 ==> r == Err::<Config, ArgumentError>(ArgumentError::MissingSrc),
            args@.len() == 2 ==> r == Err::<Config, ArgumentError>(ArgumentError::MissingDst),
            args@.len() > 2 ==> (r matches Ok(c) && c.src@ == args@[1]@ && c.dst@ == args@[2]@),
    {
        if args.len() < 2 {
            return Err(ArgumentError::MissingSrc);
        }
        if args.len() < 3 {
            return Err(ArgumentError::MissingDst);
        }
        Ok(Config { src: args[1].clone(), dst: args[2].clone() })
    }
}

} // verus!
