//! The deployment environment a binary runs in.

use vstd::prelude::*;
use crate::text::{same_text, to_uppercase, uppercase};

verus! {

/// The deployment environment.
#[derive(Clone, Copy, Debug, PartialEq, Eq, Structural)]
pub enum Environment {
    Dev,
    Staging,
    Prod,
}

/// The environment a name stands for, ignoring case (spec of `from_str`).
pub open spec fn environment_named(s: Seq<char>) -> Option<Environment> {
    let u = uppercase(s);
    if u == "DEV"@ {
        Some(Environment::Dev)
    } else if u == "STAGING"@ {
        Some(Environment::Staging)
    } else if u == "PROD"@ {
        Some(Environment::Prod)
    } else {
        None
    }
}

/// The name an environment is displayed with.
pub open spec fn environment_name(e: Environment) -> Seq<char> {
    match e {
        Environment::Dev => "DEV"@,
        Environment::Staging => "STAGING"@,
        Environment::Prod => "PROD"@,
    }
}

/// The error for an unknown environment name.
pub open spec fn unknown_environment_message(s: Seq<char>) -> Seq<char> {
    "Unknown environment "@ + s + ". Valid envs: DEV, STAGING, PROD (capital insensitive)"@
}

impl Environment {
    /// Parse an environment name, ignoring case.
    pub fn from_str(s: &str) -> (r: Result<Environment, String>)
        ensures
            match environment_named(s@) {
                Some(e) => r == Ok::<Environment, String>(e),
                None => r matches Err(m) && m@ == unknown_environment_message(s@),
            },
    {
        let upper = to_uppercase(s);
        if same_text(upper.as_str(), "DEV") {
            Ok(Environment::Dev)
        } else if same_text(upper.as_str(), "STAGING") {
            Ok(Environment::Staging)
        } else if same_text(upper.as_str(), "PROD") {
            Ok(Environment::Prod)
        } else {
            let m = String::from_str("Unknown environment ").concat(s).concat(
                ". Valid envs: DEV, STAGING, PROD (capital insensitive)",
            );
            Err(m)
        }
    }

    /// The name the environment is displayed with.
    pub fn as_str(&self) -> (r: &'static str)
        ensures
            r@ == environment_name(*self),
    {
        match self {
            Environment::Dev => "DEV",
            Environment::Staging => "STAGING",
            Environment::Prod => "PROD",
        }
    }
}

} // verus!
