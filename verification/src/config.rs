//! The settings of the authoring layer: the types that a declaration binds
//! where it names none itself.

use vstd::prelude::*;
use vstd::string::*;
use crate::error::Error;
use crate::type_syntax::{is_type, parses_as_type};

verus! {

/// The default bindings. Each is the source form of a type, or absent.
#[derive(Debug, PartialEq, Eq)]
pub struct Config {
    /// The state type of controllers and modules that name none.
    pub state: Option<String>,
    /// The context type of modules that name none.
    pub module_context: Option<String>,
}

/// Whether a setting is absent or names a type.
pub open spec fn setting_is_valid(setting: Option<String>) -> bool {
    match setting {
        Some(text) => parses_as_type(text@),
        None => true,
    }
}

impl Default for Config {
    fn default() -> (r: Self)
        ensures
            r.state is None,
            r.module_context is None,
    {
        Config { state: None, module_context: None }
    }
}

impl Config {
    /// Whether both settings are absent or name a type.
    pub open spec fn is_valid(&self) -> bool {
        setting_is_valid(self.state) && setting_is_valid(self.module_context)
    }

    /// The settings `state` and `module_context`, accepted exactly where each
    /// of them is absent or names a type.
    pub fn new(state: Option<String>, module_context: Option<String>) -> (r: Result<
        Config,
        Error,
    >)
        ensures
            match r {
                Ok(config) => {
                    &&& config.state == state
                    &&& config.module_context == module_context
                    &&& config.is_valid()
                },
                Err(e) => e == Error::InvalidType && !(setting_is_valid(state) && setting_is_valid(
                    module_context,
                )),
            },
    {
        let config = Config { state, module_context };
        if config.check() {
            Ok(config)
        } else {
            Err(Error::InvalidType)
        }
    }

    /// Whether both settings are absent or name a type.
    pub fn check(&self) -> (r: bool)
        ensures
            r == self.is_valid(),
    {
        let state_ok = match &self.state {
            Some(text) => is_type(text.as_str()),
            None => true,
        };
        let context_ok = match &self.module_context {
            Some(text) => is_type(text.as_str()),
            None => true,
        };
        state_ok && context_ok
    }
}

} // verus!
