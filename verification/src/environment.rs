//! The two deployment environments of a project and their text form.

use crate::name_order::{compare_names, NameOrder};
use vstd::prelude::*;

verus! {

/// A deployment environment.
#[derive(Clone, Copy, Debug, PartialEq, Eq, Structural)]
pub enum Environment {
    Production,
    Preview,
}

impl Environment {
    /// The lowercase word that stands for the environment in files, on the
    /// command line and on the wire.
    pub open spec fn name(self) -> Seq<char> {
        match self {
            Environment::Production => "production"@,
            Environment::Preview => "preview"@,
        }
    }

    /// The environment that `text` names, if it names one.
    pub open spec fn parse(text: Seq<char>) -> Option<Environment> {
        if text == "production"@ {
            Some(Environment::Production)
        } else if text == "preview"@ {
            Some(Environment::Preview)
        } else {
            None
        }
    }

    /// Parsing the word of an environment gives that environment back.
    pub proof fn lemma_parse_name(environment: Environment)
        ensures
            Self::parse(environment.name()) == Some(environment),
    {
        reveal_strlit("production");
        reveal_strlit("preview");
        assert("production"@.len() != "preview"@.len());
    }

    /// The word that stands for the environment.
    pub fn as_str(&self) -> (text: &'static str)
        ensures
            text@ == self.name(),
    {
        match self {
            Environment::Production => "production",
            Environment::Preview => "preview",
        }
    }

    /// Reads an environment from its word. Any other text is refused with the
    /// message `unknown value`.
    pub fn from_str(s: &str) -> (r: Result<Environment, &'static str>)
        ensures
            match Self::parse(s@) {
                Some(environment) => r == Ok::<Environment, &'static str>(environment),
                None => r matches Err(message) && message@ == "unknown value"@,
            },
    {
        if compare_names(s, "production") == NameOrder::Same {
            Ok(Environment::Production)
        } else if compare_names(s, "preview") == NameOrder::Same {
            Ok(Environment::Preview)
        } else {
            Err("unknown value")
        }
    }
}

} // verus!
