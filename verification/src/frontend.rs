//! What the editor window keeps between its runs.

use vstd::prelude::*;

verus! {

/// The state of the editor window.
#[derive(Debug)]
pub struct EngineFrontend {
    pub label_text: String,
}

impl Default for EngineFrontend {
    fn default() -> (r: Self)
        ensures
            r.label_text@ == "Hello World!"@,
    {
        Self { label_text: "Hello World!".to_string() }
    }
}

impl EngineFrontend {
    /// The state that was stored, or the default where nothing was.
    pub fn new(stored: Option<EngineFrontend>) -> (r: Self)
        ensures
            match stored {
                Some(s) => r == s,
                None => r.label_text@ == "Hello World!"@,
            },
    {
        match stored {
            Some(s) => s,
            None => Self { label_text: "Hello World!".to_string() },
        }
    }
}

/// The engine behind the editor window.
#[derive(Debug)]
pub struct EngineBackend {}

} // verus!
