//! Errors for what can go wrong with loading tiles and rendering
use crate::map::Block;
use vstd::prelude::*;

verus! {

/// An error with loading and processing a config
#[derive(Clone, Debug, PartialEq, Eq)]
pub struct ConfigLoadError {
    pub inner: ConfigLoadErrorKind,
}

impl ConfigLoadError {
    pub fn kind(&self) -> (r: &ConfigLoadErrorKind)
        ensures
            *r == self.inner,
    {
        &self.inner
    }
}

#[derive(Clone, Debug, PartialEq, Eq)]
pub enum ConfigLoadErrorKind {
    /// A problem with parsing the provided tile descriptor
    TomlParseError,
    /// A problem with loading and processing images; holds the image
    /// library's message
    SDLError(String),
    /// One of the required blocks had no tiles supplied
    MissingBlock(Block),
}

impl ConfigLoadErrorKind {
    pub fn from_sdl_string_err(s: String) -> (r: ConfigLoadErrorKind)
        ensures
            r == ConfigLoadErrorKind::SDLError(s),
    {
        ConfigLoadErrorKind::SDLError(s)
    }

    /// A description of the error.
    pub fn message(&self) -> (r: String)
        ensures
            r@ == match self {
                ConfigLoadErrorKind::TomlParseError => "A problem with parsing the provided TOML"@,
                ConfigLoadErrorKind::SDLError(_) => "A problem with loading and processing images with SDL"@,
                ConfigLoadErrorKind::MissingBlock(_) => "One of the required blocks had no tiles supplied"@,
            },
    {
        match self {
            ConfigLoadErrorKind::TomlParseError => "A problem with parsing the provided TOML".to_string(),
            ConfigLoadErrorKind::SDLError(_) => "A problem with loading and processing images with SDL".to_string(),
            ConfigLoadErrorKind::MissingBlock(_) => "One of the required blocks had no tiles supplied".to_string(),
        }
    }
}

impl From<ConfigLoadErrorKind> for ConfigLoadError {
    fn from(kind: ConfigLoadErrorKind) -> (r: ConfigLoadError) {
        ConfigLoadError { inner: kind }
    }
}

impl vstd::std_specs::convert::FromSpecImpl<ConfigLoadErrorKind> for ConfigLoadError {
    open spec fn obeys_from_spec() -> bool {
        true
    }

    open spec fn from_spec(kind: ConfigLoadErrorKind) -> ConfigLoadError {
        ConfigLoadError { inner: kind }
    }
}

/// An error with rendering an `IsoMap`
#[derive(Clone, Debug, PartialEq, Eq)]
pub struct RendererError {
    pub sdl_err: String,
}

impl RendererError {
    /// The message of the underlying failure.
    pub fn sdl_err(&self) -> (r: &String)
        ensures
            *r == self.sdl_err,
    {
        &self.sdl_err
    }
}

impl From<String> for RendererError {
    fn from(s: String) -> (r: RendererError) {
        RendererError { sdl_err: s }
    }
}

impl vstd::std_specs::convert::FromSpecImpl<String> for RendererError {
    open spec fn obeys_from_spec() -> bool {
        true
    }

    open spec fn from_spec(s: String) -> RendererError {
        RendererError { sdl_err: s }
    }
}

} // verus!
