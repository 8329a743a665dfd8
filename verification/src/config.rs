//! The configuration of one invocation, made once from what the environment
//! holds and handed down from there.

use crate::text::{copy_texts, pieces, split_at_char, texts_of};
use vstd::prelude::*;
use vstd::string::*;

verus! {

/// The name of the reserved session where none is configured.
pub const DEFAULT_SESSION: &'static str = "Default";

/// What separates the roots in the configured list.
pub const PATH_SEPARATOR: char = ':';

/// The configuration of one invocation.
#[derive(Debug, PartialEq, Eq)]
pub struct Config {
    /// The name of the reserved default session.
    pub default_session: String,
    /// The roots to scan, in the configured order.
    pub roots: Vec<String>,
}

/// Why there is no configuration.
#[derive(Debug, Clone, Copy, PartialEq, Eq)]
pub enum ConfigError {
    /// No list of roots is configured.
    MissingPaths,
}

/// The name of the reserved session: the configured one, else `Default`.
pub open spec fn session_or_default(value: Option<Seq<char>>) -> Seq<char> {
    match value {
        Some(name) => name,
        None => DEFAULT_SESSION@,
    }
}

/// The name of the reserved default session, given the configured value.
pub fn default_session(value: Option<&str>) -> (name: String)
    ensures
        name@ == session_or_default(
            match value {
                Some(v) => Some(v@),
                None => None,
            },
        ),
{
    match value {
        Some(v) => v.to_owned(),
        None => DEFAULT_SESSION.to_owned(),
    }
}

/// The roots in a configured list: the pieces between its colons, in order.
/// A list that is not configured is an error, not an empty list.
pub fn paths(value: Option<&str>) -> (r: Result<Vec<String>, ConfigError>)
    ensures
        match value {
            Some(list) => r matches Ok(roots) && texts_of(roots@) == pieces(list@, ':'),
            None => r == Err::<Vec<String>, ConfigError>(ConfigError::MissingPaths),
        },
{
    match value {
        Some(list) => Ok(split_at_char(list, PATH_SEPARATOR)),
        None => Err(ConfigError::MissingPaths),
    }
}

impl Clone for Config {
    fn clone(&self) -> (c: Config)
        ensures
            c.default_session@ == self.default_session@,
            texts_of(c.roots@) == texts_of(self.roots@),
    {
        Config { default_session: self.default_session.clone(), roots: copy_texts(&self.roots) }
    }
}

impl Config {
    /// The configuration, given the configured session name and list of
    /// roots, each as far as it is set.
    pub fn load(session: Option<&str>, roots: Option<&str>) -> (r: Result<Config, ConfigError>)
        ensures
            match roots {
                Some(list) => r matches Ok(config) && texts_of(config.roots@) == pieces(
                    list@,
                    ':',
                ) && config.default_session@ == session_or_default(
                    match session {
                        Some(v) => Some(v@),
                        None => None,
                    },
                ),
                None => r == Err::<Config, ConfigError>(ConfigError::MissingPaths),
            },
    {
        match paths(roots) {
            Ok(roots) => Ok(Config { default_session: default_session(session), roots }),
            Err(e) => Err(e),
        }
    }
}

} // verus!
