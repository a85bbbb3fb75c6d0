use vstd::prelude::*;
use vstd::string::*;

verus! {

/// A text with every letter in lower case.
pub uninterp spec fn lowercase_of(s: Seq<char>) -> Seq<char>;

/// Relies on `str::to_lowercase`: the text's lowercase mapping, which depends on the text
/// alone.
#[verifier::external_body]
fn to_lowercase(s: &str) -> (r: String)
    ensures
        r@ == lowercase_of(s@),
{
    s.to_lowercase()
}

/// The environment that the process runs in; it picks the configuration file.
#[derive(Debug, Clone, Copy, PartialEq, Eq, Structural)]
pub enum Environment {
    Local,
    Production,
}

/// An environment name that is neither `local` nor `production`.
pub struct ParseEnvironmentError(pub String);

pub open spec fn environment_named(name: Seq<char>) -> Option<Environment> {
    if name == "local"@ {
        Some(Environment::Local)
    } else if name == "production"@ {
        Some(Environment::Production)
    } else {
        None
    }
}

pub open spec fn unsupported_message(name: Seq<char>) -> Seq<char> {
    name + " is not a supported environment. Use either `local` or `production`."@
}

impl Environment {
    /// The environment's name, as configuration files are named.
    pub fn as_str(&self) -> (r: &'static str)
        ensures
            r@ == match *self {
                Environment::Local => "local"@,
                Environment::Production => "production"@,
            },
    {
        proof {
            reveal_strlit("local");
            reveal_strlit("production");
        }
        match self {
            Environment::Local => "local",
            Environment::Production => "production",
        }
    }

    /// Reads an environment name, in any letter case.
    pub fn parse(s: &str) -> (r: Result<Environment, ParseEnvironmentError>)
        ensures
            match environment_named(lowercase_of(s@)) {
                Some(e) => r matches Ok(x) && x == e,
                None => r matches Err(err) && err.0@ == unsupported_message(lowercase_of(s@)),
            },
    {
        let lower = to_lowercase(s);
        Environment::parse_lowercase(lower)
    }

    /// Reads an environment name already in lower case.
    pub fn parse_lowercase(lower: String) -> (r: Result<Environment, ParseEnvironmentError>)
        ensures
            match environment_named(lower@) {
                Some(e) => r matches Ok(x) && x == e,
                None => r matches Err(err) && err.0@ == unsupported_message(lower@),
            },
    {
        if crate::ids::same_text(lower.as_str(), "local") {
            Ok(Environment::Local)
        } else if crate::ids::same_text(lower.as_str(), "production") {
            Ok(Environment::Production)
        } else {
            let message = lower.concat(
                " is not a supported environment. Use either `local` or `production`.",
            );
            Err(ParseEnvironmentError(message))
        }
    }
}

} // verus!
