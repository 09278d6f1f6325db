//! The choice of a provider.

use vstd::prelude::*;

use crate::models::config;
use crate::models::config::ModelProviderConfig;
use crate::models::echo::EchoProvider;
use crate::models::openai::OpenAiCompatibleProvider;
use crate::text;

verus! {

/// Errors that can occur when constructing a provider from configuration.
#[derive(Debug, PartialEq, Eq)]
pub enum ProviderFactoryError {
    /// The configured provider name is not supported.
    UnsupportedProvider {
        /// The provider name read from configuration.
        provider: String,
    },
}

impl ProviderFactoryError {
    /// The text of the error.
    pub open spec fn spec_message(&self) -> Seq<char> {
        match self {
            ProviderFactoryError::UnsupportedProvider { provider } => "unsupported provider '"@
                + provider@ + "'"@,
        }
    }

    /// Returns the text of the error.
    pub fn message(&self) -> (r: String)
        ensures
            r@ == self.spec_message(),
    {
        match self {
            ProviderFactoryError::UnsupportedProvider { provider } => text::concat3(
                "unsupported provider '",
                provider,
                "'",
            ),
        }
    }
}

/// A provider.
#[derive(Debug)]
pub enum Provider {
    /// A remote provider.
    OpenAiCompatible(OpenAiCompatibleProvider),
    /// The mock provider.
    Echo(EchoProvider),
}

/// Create a model provider from a validated configuration.
///
/// This only maps the provider name to its implementation; loading and validating the
/// configuration is the caller's part.
pub fn create_provider(config: ModelProviderConfig) -> (r: Result<Provider, ProviderFactoryError>)
    ensures
        match r {
            Ok(Provider::OpenAiCompatible(provider)) => (config.provider@ == "openai"@
                || config.provider@ == "openai-compatible"@) && provider.base_url@
                == config.base_url@ && provider.api_key@ == config.api_key@ && provider.model@
                == config.model@,
            Ok(Provider::Echo(provider)) => config.provider@ == "echo"@ && provider.chunk_size
                == config::or_default(config.echo_chunk_size, 5) && provider.delay_ms
                == config::or_default(config.echo_delay_ms, 0),
            Err(ProviderFactoryError::UnsupportedProvider { provider }) => provider@
                == config.provider@ && !config::is_supported(config.provider@),
        },
        r is Ok <==> config::is_supported(config.provider@),
        r matches Ok(Provider::Echo(_)) <==> config.provider@ == "echo"@,
{
    proof {
        reveal_strlit("echo");
        reveal_strlit("openai");
        reveal_strlit("openai-compatible");
        assert("echo"@.len() != "openai"@.len());
        assert("echo"@.len() != "openai-compatible"@.len());
    }
    if text::same(&config.provider, "openai") || text::same(&config.provider, "openai-compatible") {
        return Ok(Provider::OpenAiCompatible(OpenAiCompatibleProvider::new(config)));
    }
    if text::same(&config.provider, "echo") {
        return Ok(
            Provider::Echo(
                EchoProvider {
                    chunk_size: config.echo_chunk_size_or_default(),
                    delay_ms: config.echo_delay_or_default(),
                },
            ),
        );
    }
    Err(ProviderFactoryError::UnsupportedProvider { provider: config.provider })
}

} // verus!
