use vstd::prelude::*;

verus! {

/// An option that an engine announces during the handshake.
#[derive(Debug, Clone, PartialEq, Eq)]
pub enum EngineOption {
    Check { name: String, value: bool },
    Spin { name: String, value: i32, min: Option<i32>, max: Option<i32> },
}

/// What is known of an engine before it runs: where it is, what it is
/// called, and the options it announced.
#[derive(Debug, Clone)]
pub struct Engine {
    pub path: String,
    pub name: String,
    pub engine_options: Vec<EngineOption>,
}

impl Engine {
    /// A descriptor with no options discovered yet.
    pub fn new(path: &str, name: &str) -> (r: Engine)
        ensures
            r.path@ == path@,
            r.name@ == name@,
            r.engine_options@.len() == 0,
    {
        Engine { path: String::from_str(path), name: String::from_str(name), engine_options: Vec::new() }
    }

    /// A descriptor with the same path and name, and no options.
    pub fn fresh_copy(&self) -> (r: Engine)
        ensures
            r.path@ == self.path@,
            r.name@ == self.name@,
            r.engine_options@.len() == 0,
    {
        Engine { path: self.path.clone(), name: self.name.clone(), engine_options: Vec::new() }
    }
}

} // verus!
