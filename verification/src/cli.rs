//! The command line of the deploy tool.
use vstd::prelude::*;

verus! {

/// What the deploy tool is asked to do.
pub struct DeployCommand {
    /// The binary to upload.
    pub binary_path: String,
    /// Where to upload it.
    pub gateway_url: String,
}

/// The gateway address used when none is given.
pub open spec fn default_gateway_url() -> Seq<char> {
    "http://localhost:3000/deploy"@
}

/// The usage line, for a program called `program`.
pub open spec fn usage_line(program: Seq<char>) -> Seq<char> {
    "Usage: "@ + program + " <path-to-binary> [gateway-url]"@
}

/// The command of an argument list whose first element is the program's
/// name: the binary is the second argument, the gateway address the third
/// or the default; without a binary, the usage line, naming the program or
/// `hello-faas-deploy` when even the name is missing.
pub open spec fn parsed_command(args: Seq<String>) -> Result<(Seq<char>, Seq<char>), Seq<char>> {
    if args.len() < 2 {
        Err(usage_line(if args.len() == 0 { "hello-faas-deploy"@ } else { args[0]@ }))
    } else {
        Ok((args[1]@, if args.len() < 3 { default_gateway_url() } else { args[2]@ }))
    }
}

/// Reads the command from the argument list.
pub fn parse_deploy_command(args: &Vec<String>) -> (r: Result<DeployCommand, String>)
    ensures
        r matches Ok(c) ==> parsed_command(args@) == Ok::<(Seq<char>, Seq<char>), Seq<char>>(
            (c.binary_path@, c.gateway_url@),
        ),
        r matches Err(u) ==> parsed_command(args@) == Err::<(Seq<char>, Seq<char>), Seq<char>>(
            u@,
        ),
{
    if args.len() < 2 {
        let program = if args.len() == 0 {
            String::from_str("hello-faas-deploy")
        } else {
            args[0].clone()
        };
        Err(
            String::from_str("Usage: ").concat(program.as_str()).concat(
                " <path-to-binary> [gateway-url]",
            ),
        )
    } else {
        let gateway_url = if args.len() < 3 {
            String::from_str("http://localhost:3000/deploy")
        } else {
            args[2].clone()
        };
        Ok(DeployCommand { binary_path: args[1].clone(), gateway_url })
    }
}

} // verus!
