//! The options of one invocation, as far as they affect relocation.
use vstd::prelude::*;

verus! {

/// The tempstore used when neither the options nor the environment name one.
pub const DEFAULT_TEMPSTORE: &'static str = "/tmp/tempstore";

/// The environment variable that names a tempstore.
pub const TEMPSTORE_VAR: &'static str = "TEMPSTORE";

pub struct Cli {
    /// The paths to delete.
    pub files: Vec<String>,
    /// The tempstore named on the command line.
    pub tempstore: Option<String>,
    /// Show what would be deleted and ask before each path.
    pub preview: bool,
}

/// The tempstore root: the option, else the environment's value, else the
/// built-in default.
pub open spec fn tempstore_choice(option: Option<Seq<char>>, env: Option<Seq<char>>) -> Seq<char> {
    match option {
        Some(t) => t,
        None => match env {
            Some(t) => t,
            None => DEFAULT_TEMPSTORE@,
        },
    }
}

impl Cli {
    /// The tempstore root, given the value of `TEMPSTORE` in the
    /// environment (`None` when it is unset or not text).
    pub fn tempstore_root(&self, env: Option<String>) -> (r: String)
        ensures
            r@ == tempstore_choice(
                match self.tempstore { Some(t) => Some(t@), None => None },
                match env { Some(t) => Some(t@), None => None },
            ),
    {
        match &self.tempstore {
            Some(t) => t.clone(),
            None => match env {
                Some(t) => t,
                None => DEFAULT_TEMPSTORE.to_string(),
            },
        }
    }
}

} // verus!
