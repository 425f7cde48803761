//! Which environment a build serves: development or production.

use vstd::prelude::*;

verus! {

/// The environment a process runs for. Development is the default wherever
/// nothing says otherwise.
#[derive(Clone, Copy, PartialEq, Eq, Structural, Debug)]
pub enum Environment {
    Development,
    Production,
}

impl Default for Environment {
    fn default() -> (r: Self)
        ensures
            r == Environment::Development,
    {
        Environment::Development
    }
}

/// The environment a label names, if any: `development` or `production`, in
/// lower case.
pub open spec fn environment_of_label(label: Seq<char>) -> Option<Environment> {
    if label == "development"@ {
        Some(Environment::Development)
    } else if label == "production"@ {
        Some(Environment::Production)
    } else {
        None
    }
}

impl Environment {
    /// Reads an environment from its label.
    pub fn from_label(label: &str) -> (r: Option<Environment>)
        ensures
            r == environment_of_label(label@),
    {
        let owned = label.to_owned();
        let development = "development".to_owned();
        let production = "production".to_owned();
        if owned == development {
            Some(Environment::Development)
        } else if owned == production {
            Some(Environment::Production)
        } else {
            None
        }
    }
}

} // verus!
