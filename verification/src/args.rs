//! Command-line argument parsing: source root, destination root, and an
//! optional copy flag.

use vstd::prelude::*;

verus! {

/// Why the command line is rejected.
#[derive(Clone, Copy, Debug, PartialEq, Eq, Structural)]
pub enum ArgError {
    /// Fewer than the two required operands were given.
    MissingOperand,
}

/// Parses the argument vector, program name first. The first operand is the
/// source root, the second the destination root. A third argument of
/// `--copy` or `-c` asks for copy mode; any other value means move mode.
pub fn parse_args(args: Vec<String>) -> (r: Result<(String, String, bool), ArgError>)
    ensures
        args@.len() < 3 ==> (r matches Err(e) && e == ArgError::MissingOperand),
        args@.len() >= 3 ==> (r matches Ok(t) && t.0@ == args@[1]@ && t.1@ == args@[2]@ && t.2 == (
        args@.len() > 3 && (args@[3]@ == "--copy"@ || args@[3]@ == "-c"@))),
{
    if args.len() < 3 {
        return Err(ArgError::MissingOperand);
    }
    let source = args[1].clone();
    let dest = args[2].clone();
    let copy = if args.len() > 3 {
        let long: String = "--copy".to_owned();
        let short: String = "-c".to_owned();
        args[3] == long || args[3] == short
    } else {
        false
    };
    Ok((source, dest, copy))
}

} // verus!
