//! The decisions of one provisioning run: which user it is for, and what is
//! handed to the provisioning script. Reading the arguments and the pool,
//! and starting the script, are left to the caller.

use crate::password::{create_wg_password, is_sampled_from, CredentialError, MAX_INDEX};
use crate::pool::{pool_from_text, pool_of_text};
use crate::token::{create_token, is_token};
use vstd::prelude::*;

verus! {

/// Why a run ends without starting the provisioning script.
#[derive(Clone, Copy, Debug, PartialEq, Eq, Structural)]
pub enum RunError {
    /// The command line names no user.
    MissingUser,
    /// The pool is too small for an index that was drawn.
    PoolTooSmall,
}

/// What the provisioning script is started with.
#[derive(Debug)]
pub struct Invocation {
    /// The user to provision.
    pub username: String,
    /// The token generated for this run.
    pub token: String,
    /// The password generated for this run.
    pub password: String,
}

impl Invocation {
    /// The script's positional arguments: the user's name, the token and the
    /// password, in this order.
    pub fn arguments(&self) -> (arguments: Vec<String>)
        ensures
            arguments@.len() == 3,
            arguments@[0]@ == self.username@,
            arguments@[1]@ == self.token@,
            arguments@[2]@ == self.password@,
    {
        let mut arguments: Vec<String> = Vec::new();
        arguments.push(self.username.clone());
        arguments.push(self.token.clone());
        arguments.push(self.password.clone());
        arguments
    }
}

/// Takes the user's name from the command line `args`, whose first entry is
/// the program's own name. The name is the entry after it; further entries
/// are ignored. A command line without that entry is a usage error.
pub fn username_from_args(args: &Vec<String>) -> (result: Result<String, RunError>)
    ensures
        result is Ok <==> args@.len() >= 2,
        result is Ok ==> result->Ok_0@ == args@[1]@,
        result is Err ==> result->Err_0 == RunError::MissingUser,
{
    if args.len() < 2 {
        Err(RunError::MissingUser)
    } else {
        Ok(args[1].clone())
    }
}

/// Generates the credentials for `username` from the text of the pool, and
/// puts together what the script is started with.
///
/// The token is generated first, the password second, once each. A pool of
/// more than `MAX_INDEX` characters always gives an invocation; a smaller
/// one only if every drawn index lies inside it.
pub fn prepare_invocation(username: String, pool_text: &str) -> (result: Result<
    Invocation,
    RunError,
>)
    ensures
        pool_of_text(pool_text@).len() > MAX_INDEX ==> result is Ok,
        result is Ok ==> {
            &&& result->Ok_0.username@ == username@
            &&& is_token(result->Ok_0.token@)
            &&& is_sampled_from(result->Ok_0.password@, pool_of_text(pool_text@))
        },
        result is Err ==> {
            &&& result->Err_0 == RunError::PoolTooSmall
            &&& pool_of_text(pool_text@).len() <= MAX_INDEX
        },
{
    let characters = pool_from_text(pool_text);
    let token = create_token();
    match create_wg_password(characters) {
        Ok(password) => Ok(Invocation { username, token, password }),
        Err(CredentialError::PoolTooSmall) => Err(RunError::PoolTooSmall),
    }
}

} // verus!
