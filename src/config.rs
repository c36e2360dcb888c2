use vstd::prelude::*;
use vstd::string::*;

verus! {

/// Which model service to talk to.
pub struct Provider {
    pub base_url: String,
    pub model: String,
}

/// Credentials for the model service.
pub struct Auth {
    pub api_key: String,
}

impl Provider {
    /// The default service and model.
    pub fn standard() -> (r: Provider)
        ensures
            r.base_url@ == "https://openrouter.ai/api/v1"@,
            r.model@ == "grok-4-fast:free"@,
    {
        Provider {
            base_url: String::from_str("https://openrouter.ai/api/v1"),
            model: String::from_str("grok-4-fast:free"),
        }
    }
}

impl Auth {
    /// No key configured yet.
    pub fn missing() -> (r: Auth)
        ensures
            r.api_key@.len() == 0,
    {
        Auth { api_key: String::new() }
    }

    /// Whether a key is configured.
    pub fn has_key(&self) -> (r: bool)
        ensures
            r == (self.api_key@.len() > 0),
    {
        self.api_key.as_str().unicode_len() > 0
    }
}

} // verus!
