use vstd::prelude::*;

use crate::communicator::Communicator;
use crate::text::str_equal;

verus! {

/// The number of command-line arguments the tool expects: the path of the running
/// binary (supplied by default), the path to the config.toml, the user id and the user token.
pub const EXPECTED_AMOUNT_OF_ARGUMENTS: usize = 4;

/// The command-line arguments that the tool needs.
pub struct Args {
    pub config_path: String,
    pub user_id: String,
    pub user_token: String,
}

/// Why the command-line arguments were refused.
#[derive(Debug, PartialEq, Eq, Structural, Clone, Copy)]
pub enum ArgsError {
    /// There were not exactly `EXPECTED_AMOUNT_OF_ARGUMENTS` arguments.
    InvalidNumberOfArguments,
}

/// Reads the config path, the user id and the user token from the command line
/// (`args[0]` is the path of the running binary).
pub fn parse_arguments(args: &Vec<String>) -> (r: Result<Args, ArgsError>)
    ensures
        r is Err <==> args@.len() != EXPECTED_AMOUNT_OF_ARGUMENTS,
        r matches Ok(a) ==> {
            &&& a.config_path@ == args@[1]@
            &&& a.user_id@ == args@[2]@
            &&& a.user_token@ == args@[3]@
        },
{
    if args.len() != EXPECTED_AMOUNT_OF_ARGUMENTS {
        return Err(ArgsError::InvalidNumberOfArguments);
    }
    let config_path = args[1].clone();
    let user_id = args[2].clone();
    let user_token = args[3].clone();
    Ok(Args { config_path, user_id, user_token })
}

/// Whether the config's `is_test_environment` entry switches the test environment on:
/// exactly when it reads `true`.
pub open spec fn spec_is_test_environment(flag: Seq<char>) -> bool {
    flag == "true"@
}

/// Sets up the communicator for the EgoCMS REST API; the test environment (which accepts
/// invalid certificates) is on exactly when `is_test_environment` reads `true`.
pub fn open_connection(
    rest_url: String,
    site_url: String,
    user_id: String,
    user_token: String,
    is_test_environment: &str,
) -> (c: Communicator)
    ensures
        c@.rest_url == rest_url@,
        c@.site_url == site_url@,
        c@.user_id == user_id@,
        c@.user_token == user_token@,
        c@.is_test_environment == spec_is_test_environment(is_test_environment@),
{
    let is_test_environment = str_equal(is_test_environment, "true");
    Communicator::new(rest_url, site_url, user_id, user_token, is_test_environment)
}

} // verus!
