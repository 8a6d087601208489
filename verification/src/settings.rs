//! The settings of one run: the credential for the monitoring service and an
//! optional user agent, taken once from the environment by the caller.

use vstd::prelude::*;
use vstd::string::*;

verus! {

/// Why no settings could be made.
#[derive(Debug, Clone, Copy, PartialEq, Eq, Structural)]
pub enum SettingsError {
    /// The credential is unset or empty.
    MissingCredential,
}

/// The credential and the optional user agent. The credential is never
/// empty; its format is not looked at here.
#[derive(Debug)]
pub struct Settings {
    token: String,
    ua: Option<String>,
}

/// The text of an optional string.
pub open spec fn optional_text(value: Option<String>) -> Option<Seq<char>> {
    match value {
        Some(text) => Some(text@),
        None => None,
    }
}

impl Settings {
    #[verifier::type_invariant]
    spec fn well_formed(&self) -> bool {
        self.token@.len() > 0
    }

    /// The credential.
    pub closed spec fn token_text(&self) -> Seq<char> {
        self.token@
    }

    /// The user agent that overrides the client's own, if there is one.
    pub closed spec fn user_agent_text(&self) -> Option<Seq<char>> {
        optional_text(self.ua)
    }

    /// Makes the settings from what the environment holds: the value of the
    /// credential variable and that of the user-agent variable, each `None`
    /// where the variable is unset. A credential that is unset or empty is
    /// turned down; the user agent is taken as it is.
    pub fn resolve(credential: Option<String>, user_agent: Option<String>) -> (resolved: Result<
        Settings,
        SettingsError,
    >)
        ensures
            resolved is Ok <==> (credential matches Some(text) && text@.len() > 0),
            resolved matches Ok(settings) ==> settings.token_text() == credential->Some_0@
                && settings.user_agent_text() == optional_text(user_agent),
    {
        match credential {
            Some(token) => {
                if token.as_str().is_empty() {
                    Err(SettingsError::MissingCredential)
                } else {
                    Ok(Settings { token, ua: user_agent })
                }
            },
            None => Err(SettingsError::MissingCredential),
        }
    }

    /// The credential, which is not empty.
    pub fn token(&self) -> (token: &String)
        ensures
            token@ == self.token_text(),
            token@.len() > 0,
    {
        proof {
            use_type_invariant(self);
        }
        &self.token
    }

    /// The user agent that overrides the client's own, if there is one.
    pub fn user_agent(&self) -> (user_agent: &Option<String>)
        ensures
            optional_text(*user_agent) == self.user_agent_text(),
    {
        &self.ua
    }
}

} // verus!
