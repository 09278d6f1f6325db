//! Provider configuration: where it is read from and what it must hold.

use vstd::prelude::*;

use crate::paths;
use crate::text;

verus! {

/// Default configuration file name.
pub const DEFAULT_FILE_NAME: &'static str = "config.toml";

/// Configuration for a model provider.
#[derive(Debug, PartialEq, Eq)]
pub struct ModelProviderConfig {
    /// Provider identifier, e.g. `openai`, `openai-compatible`, or `echo`.
    pub provider: String,
    /// Base URL for the provider's API endpoint.
    pub base_url: String,
    /// API key used to authenticate with the provider.
    pub api_key: String,
    /// Model name to use for completions.
    pub model: String,
    /// Optional chunk size for the `echo` provider's text splitting.
    pub echo_chunk_size: Option<usize>,
    /// Optional delay in milliseconds between `echo` provider chunks.
    pub echo_delay_ms: Option<u64>,
    /// Optional token budget of the model context.
    pub context_budget: Option<usize>,
}

/// What a [`ModelProviderConfig`] holds.
pub struct ModelProviderConfigModel {
    pub provider: Seq<char>,
    pub base_url: Seq<char>,
    pub api_key: Seq<char>,
    pub model: Seq<char>,
    pub echo_chunk_size: Option<usize>,
    pub echo_delay_ms: Option<u64>,
    pub context_budget: Option<usize>,
}

impl DeepView for ModelProviderConfig {
    type V = ModelProviderConfigModel;

    open spec fn deep_view(&self) -> ModelProviderConfigModel {
        ModelProviderConfigModel {
            provider: self.provider@,
            base_url: self.base_url@,
            api_key: self.api_key@,
            model: self.model@,
            echo_chunk_size: self.echo_chunk_size,
            echo_delay_ms: self.echo_delay_ms,
            context_budget: self.context_budget,
        }
    }
}

impl Clone for ModelProviderConfig {
    fn clone(&self) -> (r: Self)
        ensures
            r.deep_view() == self.deep_view(),
    {
        let r = ModelProviderConfig {
            provider: self.provider.clone(),
            base_url: self.base_url.clone(),
            api_key: self.api_key.clone(),
            model: self.model.clone(),
            echo_chunk_size: self.echo_chunk_size,
            echo_delay_ms: self.echo_delay_ms,
            context_budget: self.context_budget,
        };
        r
    }
}

/// What a configuration file holds, before validation and defaults.
#[derive(Debug, PartialEq, Eq)]
pub struct RawConfig {
    /// Provider identifier.
    pub provider: Option<String>,
    pub base_url: Option<String>,
    pub api_key: Option<String>,
    pub model: Option<String>,
    /// Optional chunk size for the `echo` provider's text splitting.
    pub echo_chunk_size: Option<usize>,
    /// Optional delay in milliseconds between `echo` provider chunks.
    pub echo_delay_ms: Option<u64>,
    /// Optional token budget of the model context.
    pub context_budget: Option<usize>,
    /// Overrides for OpenAI-compatible providers.
    pub openai: Option<OpenAiSection>,
}

/// What a [`RawConfig`] holds.
pub struct RawConfigModel {
    pub provider: Option<Seq<char>>,
    pub base_url: Option<Seq<char>>,
    pub api_key: Option<Seq<char>>,
    pub model: Option<Seq<char>>,
    pub echo_chunk_size: Option<usize>,
    pub echo_delay_ms: Option<u64>,
    pub context_budget: Option<usize>,
    pub openai: Option<OpenAiSectionModel>,
}

impl DeepView for RawConfig {
    type V = RawConfigModel;

    open spec fn deep_view(&self) -> RawConfigModel {
        RawConfigModel {
            provider: self.provider.deep_view(),
            base_url: self.base_url.deep_view(),
            api_key: self.api_key.deep_view(),
            model: self.model.deep_view(),
            echo_chunk_size: self.echo_chunk_size,
            echo_delay_ms: self.echo_delay_ms,
            context_budget: self.context_budget,
            openai: self.openai.deep_view(),
        }
    }
}

impl Clone for RawConfig {
    fn clone(&self) -> (r: Self)
        ensures
            r.deep_view() == self.deep_view(),
    {
        let r = RawConfig {
            provider: self.provider.clone(),
            base_url: self.base_url.clone(),
            api_key: self.api_key.clone(),
            model: self.model.clone(),
            echo_chunk_size: self.echo_chunk_size,
            echo_delay_ms: self.echo_delay_ms,
            context_budget: self.context_budget,
            openai: self.openai.clone(),
        };
        r
    }
}

/// The `openai` section of a configuration file.
#[derive(Debug, PartialEq, Eq)]
pub struct OpenAiSection {
    pub base_url: Option<String>,
    pub api_key: Option<String>,
    pub model: Option<String>,
}

/// What a [`OpenAiSection`] holds.
pub struct OpenAiSectionModel {
    pub base_url: Option<Seq<char>>,
    pub api_key: Option<Seq<char>>,
    pub model: Option<Seq<char>>,
}

impl DeepView for OpenAiSection {
    type V = OpenAiSectionModel;

    open spec fn deep_view(&self) -> OpenAiSectionModel {
        OpenAiSectionModel {
            base_url: self.base_url.deep_view(),
            api_key: self.api_key.deep_view(),
            model: self.model.deep_view(),
        }
    }
}

impl Clone for OpenAiSection {
    fn clone(&self) -> (r: Self)
        ensures
            r.deep_view() == self.deep_view(),
    {
        let r = OpenAiSection {
            base_url: self.base_url.clone(),
            api_key: self.api_key.clone(),
            model: self.model.clone(),
        };
        r
    }
}

/// What a field with a default holds.
pub open spec fn or_default<T>(value: Option<T>, default: T) -> T {
    match value {
        Some(value) => value,
        None => default,
    }
}

impl ModelProviderConfig {
    /// Returns the configured echo chunk size or a sensible default.
    pub fn echo_chunk_size_or_default(&self) -> (r: usize)
        ensures
            r == or_default(self.echo_chunk_size, 5),
    {
        match self.echo_chunk_size {
            Some(size) => size,
            None => 5,
        }
    }

    /// Returns the configured echo delay in milliseconds, or zero if unset.
    pub fn echo_delay_or_default(&self) -> (r: u64)
        ensures
            r == or_default(self.echo_delay_ms, 0),
    {
        match self.echo_delay_ms {
            Some(delay) => delay,
            None => 0,
        }
    }
}

/// Errors that can occur while loading or parsing provider configuration.
#[derive(Debug, PartialEq, Eq)]
pub enum ConfigError {
    /// The configuration file was not found at the expected path.
    NotFound(String),
    /// The configuration file could not be read.
    Read {
        /// Path to the file that could not be read.
        path: String,
        /// Underlying I/O error.
        source: String,
    },
    /// The configuration file contains invalid TOML.
    Parse(String),
    /// The configured provider is not supported.
    UnsupportedProvider {
        /// The provider name read from configuration.
        provider: String,
    },
    /// A required field is missing from the configuration.
    MissingField {
        /// Name of the missing field.
        field: String,
    },
}

/// What a [`ConfigError`] holds.
pub enum ConfigErrorModel {
    NotFound(Seq<char>),
    Read { path: Seq<char>, source: Seq<char> },
    Parse(Seq<char>),
    UnsupportedProvider { provider: Seq<char> },
    MissingField { field: Seq<char> },
}

impl DeepView for ConfigError {
    type V = ConfigErrorModel;

    open spec fn deep_view(&self) -> ConfigErrorModel {
        match self {
            ConfigError::NotFound(path) => ConfigErrorModel::NotFound(path@),
            ConfigError::Read { path, source } => ConfigErrorModel::Read {
                path: path@,
                source: source@,
            },
            ConfigError::Parse(error) => ConfigErrorModel::Parse(error@),
            ConfigError::UnsupportedProvider { provider } =>
                ConfigErrorModel::UnsupportedProvider { provider: provider@ },
            ConfigError::MissingField { field } => ConfigErrorModel::MissingField {
                field: field@,
            },
        }
    }
}

impl ConfigError {
    /// The text of the error.
    pub open spec fn spec_message(&self) -> Seq<char> {
        match self {
            ConfigError::NotFound(path) => "provider config not found at "@ + path@,
            ConfigError::Read { path, source } => "failed to read provider config at "@ + path@
                + ": "@ + source@,
            ConfigError::Parse(error) => "provider config is invalid TOML: "@ + error@,
            ConfigError::UnsupportedProvider { provider } => "unsupported provider '"@ + provider@
                + "' in config"@,
            ConfigError::MissingField { field } => "missing required field '"@ + field@
                + "' in provider config"@,
        }
    }

    /// Returns the text of the error.
    pub fn message(&self) -> (r: String)
        ensures
            r@ == self.spec_message(),
    {
        match self {
            ConfigError::NotFound(path) => text::concat("provider config not found at ", path),
            ConfigError::Read { path, source } => text::concat(
                &text::concat3("failed to read provider config at ", path, ": "),
                source,
            ),
            ConfigError::Parse(error) => text::concat("provider config is invalid TOML: ", error),
            ConfigError::UnsupportedProvider { provider } => text::concat3(
                "unsupported provider '",
                provider,
                "' in config",
            ),
            ConfigError::MissingField { field } => text::concat3(
                "missing required field '",
                field,
                "' in provider config",
            ),
        }
    }
}

/// The configuration directory of the user.
pub open spec fn config_dir(
    xdg_config_home: Option<Seq<char>>,
    home: Option<Seq<char>>,
) -> Seq<char> {
    match xdg_config_home {
        Some(dir) => dir,
        None => paths::joined(or_default(home, "."@), ".config"@),
    }
}

/// Returns the configuration directory of the user: `XDG_CONFIG_HOME`, or `.config` below
/// `HOME`.
pub fn user_config_dir(xdg_config_home: Option<String>, home: Option<String>) -> (r: String)
    ensures
        r@ == config_dir(xdg_config_home.deep_view(), home.deep_view()),
{
    match xdg_config_home {
        Some(dir) => dir,
        None => {
            let home = match home {
                Some(dir) => dir,
                None => ".".to_owned(),
            };
            paths::join(&home, ".config")
        },
    }
}

/// The configuration file path for the given environment values.
pub open spec fn config_path(
    override_path: Option<Seq<char>>,
    xdg_config_home: Option<Seq<char>>,
    home: Option<Seq<char>>,
) -> Seq<char> {
    match override_path {
        Some(path) => path,
        None => paths::joined(
            paths::joined(config_dir(xdg_config_home, home), "byte"@),
            "config.toml"@,
        ),
    }
}

/// Resolve the configuration file path from the given environment values.
///
/// Prefers `override_path` if present, otherwise falls back to
/// `$XDG_CONFIG_HOME/byte/config.toml` or `$HOME/.config/byte/config.toml`.
pub fn resolve_config_path_with_env(
    override_path: Option<String>,
    xdg_config_home: Option<String>,
    home: Option<String>,
) -> (r: String)
    ensures
        r@ == config_path(
            override_path.deep_view(),
            xdg_config_home.deep_view(),
            home.deep_view(),
        ),
{
    if let Some(path) = override_path {
        return path;
    }
    let dir = user_config_dir(xdg_config_home, home);
    paths::join(&paths::join(&dir, "byte"), DEFAULT_FILE_NAME)
}

/// A provider that is supported.
pub open spec fn is_supported(provider: Seq<char>) -> bool {
    provider == "openai"@ || provider == "openai-compatible"@ || provider == "echo"@
}

/// A field at the top level, else in the section.
pub open spec fn flat_or(flat: Option<Seq<char>>, section: Option<Seq<char>>) -> Option<Seq<char>> {
    if flat is Some {
        flat
    } else {
        section
    }
}

/// The configuration that a file holds, or what is wrong with it.
pub open spec fn configured(raw: RawConfigModel) -> Result<
    ModelProviderConfigModel,
    ConfigErrorModel,
> {
    let provider = or_default(raw.provider, "openai"@);
    let section = or_default(
        raw.openai,
        OpenAiSectionModel { base_url: None, api_key: None, model: None },
    );
    let base_url = flat_or(raw.base_url, section.base_url);
    let api_key = flat_or(raw.api_key, section.api_key);
    let model = flat_or(raw.model, section.model);
    if !is_supported(provider) {
        Err(ConfigErrorModel::UnsupportedProvider { provider })
    } else if base_url is None {
        Err(ConfigErrorModel::MissingField { field: "base_url"@ })
    } else if api_key is None {
        Err(ConfigErrorModel::MissingField { field: "api_key"@ })
    } else if model is None {
        Err(ConfigErrorModel::MissingField { field: "model"@ })
    } else {
        Ok(
            ModelProviderConfigModel {
                provider,
                base_url: base_url->0,
                api_key: api_key->0,
                model: model->0,
                echo_chunk_size: raw.echo_chunk_size,
                echo_delay_ms: raw.echo_delay_ms,
                context_budget: raw.context_budget,
            },
        )
    }
}

/// What a result of loading the configuration holds.
pub open spec fn config_result(r: Result<ModelProviderConfig, ConfigError>) -> Result<
    ModelProviderConfigModel,
    ConfigErrorModel,
> {
    match r {
        Ok(config) => Ok(config.deep_view()),
        Err(error) => Err(error.deep_view()),
    }
}

/// Returns a required field, or an error that names it.
pub fn require_field(name: &str, value: Option<String>) -> (r: Result<String, ConfigError>)
    ensures
        match r {
            Ok(field) => value.deep_view() == Some(field@),
            Err(error) => value is None && error.deep_view() == (ConfigErrorModel::MissingField {
                field: name@,
            }),
        },
{
    match value {
        Some(value) => Ok(value),
        None => Err(ConfigError::MissingField { field: name.to_owned() }),
    }
}

/// The first value, else the second.
fn first_of(a: Option<String>, b: Option<String>) -> (r: Option<String>)
    ensures
        r.deep_view() == flat_or(a.deep_view(), b.deep_view()),
{
    match a {
        Some(value) => Some(value),
        None => b,
    }
}

/// Validates what was read from a configuration file and applies the defaults: fields at the
/// top level go before those of the `openai` section.
pub fn parse_config(raw: RawConfig) -> (r: Result<ModelProviderConfig, ConfigError>)
    ensures
        config_result(r) == configured(raw.deep_view()),
{
    let provider = match raw.provider {
        Some(provider) => provider,
        None => "openai".to_owned(),
    };
    if !(text::same(&provider, "openai") || text::same(&provider, "openai-compatible")
        || text::same(&provider, "echo")) {
        return Err(ConfigError::UnsupportedProvider { provider });
    }
    let section = match raw.openai {
        Some(section) => section,
        None => OpenAiSection { base_url: None, api_key: None, model: None },
    };
    let base_url = match require_field("base_url", first_of(raw.base_url, section.base_url)) {
        Ok(field) => field,
        Err(error) => {
            return Err(error);
        },
    };
    let api_key = match require_field("api_key", first_of(raw.api_key, section.api_key)) {
        Ok(field) => field,
        Err(error) => {
            return Err(error);
        },
    };
    let model = match require_field("model", first_of(raw.model, section.model)) {
        Ok(field) => field,
        Err(error) => {
            return Err(error);
        },
    };
    Ok(
        ModelProviderConfig {
            provider,
            base_url,
            api_key,
            model,
            echo_chunk_size: raw.echo_chunk_size,
            echo_delay_ms: raw.echo_delay_ms,
            context_budget: raw.context_budget,
        },
    )
}

/// What was found at the configuration path.
pub enum ConfigFile {
    /// There is no file.
    Missing,
    /// The file could not be read.
    Unreadable(String),
    /// The file holds no valid TOML.
    Invalid(String),
    /// What the file holds.
    Parsed(RawConfig),
}

/// The configuration at a path, given what was found there.
pub open spec fn loaded(path: Seq<char>, file: ConfigFile) -> Result<
    ModelProviderConfigModel,
    ConfigErrorModel,
> {
    match file {
        ConfigFile::Missing => Err(ConfigErrorModel::NotFound(path)),
        ConfigFile::Unreadable(source) => Err(ConfigErrorModel::Read { path, source: source@ }),
        ConfigFile::Invalid(error) => Err(ConfigErrorModel::Parse(error@)),
        ConfigFile::Parsed(raw) => configured(raw.deep_view()),
    }
}

/// Returns the configuration at `path`, given what was found there.
pub fn load_config_at_path(path: &str, file: ConfigFile) -> (r: Result<
    ModelProviderConfig,
    ConfigError,
>)
    ensures
        config_result(r) == loaded(path@, file),
{
    match file {
        ConfigFile::Missing => Err(ConfigError::NotFound(path.to_owned())),
        ConfigFile::Unreadable(source) => Err(ConfigError::Read { path: path.to_owned(), source }),
        ConfigFile::Invalid(error) => Err(ConfigError::Parse(error)),
        ConfigFile::Parsed(raw) => parse_config(raw),
    }
}

/// A configuration that loads names a supported provider, so that a provider can be created
/// from it.
pub proof fn law_loaded_provider_is_supported(raw: RawConfigModel)
    ensures
        configured(raw) matches Ok(config) ==> is_supported(config.provider),
{
}

} // verus!
