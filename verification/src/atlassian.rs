//! Issue-tracker integration configuration and its validation.

use vstd::prelude::*;

verus! {

/// Connection settings for the issue-tracker API.
#[derive(Debug, Clone)]
pub struct AtlassianConfig {
    pub base_url: String,
    pub email: String,
    pub token: String,
}

/// The server's own identity.
#[derive(Debug, Clone)]
pub struct ServerConfig {
    pub name: String,
    pub version: String,
}

/// The whole configuration.
#[derive(Debug, Clone)]
pub struct Config {
    pub atlassian: AtlassianConfig,
    pub server: ServerConfig,
}

impl Config {
    /// Accepts the configuration exactly when base URL, email and token are
    /// all non-empty; the first missing one is named.
    pub fn validate(&self) -> (r: Result<(), String>)
        ensures
            match r {
                Ok(()) => self.atlassian.base_url@.len() > 0 && self.atlassian.email@.len() > 0
                    && self.atlassian.token@.len() > 0,
                Err(m) => {
                    if self.atlassian.base_url@.len() == 0 {
                        m@ == "Atlassian base URL is required"@
                    } else if self.atlassian.email@.len() == 0 {
                        m@ == "Atlassian email is required"@
                    } else {
                        self.atlassian.token@.len() == 0 && m@ == "Atlassian token is required"@
                    }
                },
            },
    {
        if self.atlassian.base_url.as_str().unicode_len() == 0 {
            return Err("Atlassian base URL is required".to_owned());
        }
        if self.atlassian.email.as_str().unicode_len() == 0 {
            return Err("Atlassian email is required".to_owned());
        }
        if self.atlassian.token.as_str().unicode_len() == 0 {
            return Err("Atlassian token is required".to_owned());
        }
        Ok(())
    }
}

} // verus!
