use vstd::prelude::*;

verus! {

/// The one way a keyed access can fail.
#[derive(Debug, Clone, Copy, PartialEq, Eq, Structural)]
pub enum Error {
    /// The supplied key matches none of the declared keys.
    KeyNotFound,
}

impl Error {
    /// Human-readable description of the error.
    pub fn message(&self) -> (r: String)
        ensures
            r@ == "Key not found"@,
    {
        match self {
            Error::KeyNotFound => "Key not found".to_owned(),
        }
    }
}

/// Why a declaration cannot be turned into a keyed container.
#[derive(Debug, Clone, Copy, PartialEq, Eq, Structural)]
pub enum ConfigError {
    /// The declared type is not a single unnamed field holding a container
    /// with a key type and a value type.
    NotAContainerWrapper,
    /// More keys are declared than the container has slots.
    TooManyKeys,
}

impl ConfigError {
    /// Human-readable description of the error.
    pub fn message(&self) -> (r: String)
        ensures
            r@ == match self {
                ConfigError::NotAContainerWrapper => "can only be derived on a container-wrapping type"@,
                ConfigError::TooManyKeys => "more keys are declared than the container has slots"@,
            },
    {
        match self {
            ConfigError::NotAContainerWrapper => "can only be derived on a container-wrapping type".to_owned(),
            ConfigError::TooManyKeys => "more keys are declared than the container has slots".to_owned(),
        }
    }
}

} // verus!
