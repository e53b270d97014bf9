//! AWS Bedrock as a provider. Its client has its own transport and its own
//! credentials, so there is no base URL and no key here.

use crate::capabilities::Capabilities;
use vstd::prelude::*;
use vstd::string::*;

verus! {

/// Puts a provider together.
pub struct BedrockProviderBuilder {
    pub id: String,
    pub region: String,
    pub model: String,
    pub profile: Option<String>,
    pub capabilities: Option<Capabilities>,
}

/// A provider: what its client is made from, and what it can do.
pub struct BedrockProvider {
    pub id: String,
    pub region: String,
    pub model: String,
    pub profile: Option<String>,
    pub capabilities: Capabilities,
}

impl BedrockProviderBuilder {
    /// A provider for this model in this region, with the credentials of its
    /// surroundings.
    pub fn new(id: &str, region: String, model: String) -> (r: BedrockProviderBuilder)
        ensures
            r.id@ == id@,
            r.region == region,
            r.model == model,
            r.profile is None,
            r.capabilities is None,
    {
        BedrockProviderBuilder {
            id: id.to_owned(),
            region,
            model,
            profile: None,
            capabilities: None,
        }
    }

    /// The local profile whose credentials are used.
    pub fn profile(self, profile: Option<String>) -> (r: BedrockProviderBuilder)
        ensures
            r == (BedrockProviderBuilder { profile, ..self }),
    {
        BedrockProviderBuilder { profile, ..self }
    }

    /// Other capabilities.
    pub fn capabilities(self, caps: Capabilities) -> (r: BedrockProviderBuilder)
        ensures
            r == (BedrockProviderBuilder { capabilities: Some(caps), ..self }),
    {
        BedrockProviderBuilder { capabilities: Some(caps), ..self }
    }

    /// The provider. `usual` is what a client can do unless it is told otherwise.
    pub fn build(self, usual: Capabilities) -> (r: BedrockProvider)
        ensures
            r == (BedrockProvider {
                id: self.id,
                region: self.region,
                model: self.model,
                profile: self.profile,
                capabilities: match self.capabilities {
                    Some(c) => c,
                    None => usual,
                },
            }),
    {
        let capabilities: Capabilities = match self.capabilities {
            Some(c) => c,
            None => usual,
        };
        BedrockProvider {
            id: self.id,
            region: self.region,
            model: self.model,
            profile: self.profile,
            capabilities,
        }
    }
}

} // verus!
