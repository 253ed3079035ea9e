//! Error kinds of the providers and of the application.
use vstd::prelude::*;

verus! {

/// What can go wrong inside one provider.
#[derive(Debug, Clone, PartialEq, Eq)]
pub enum ProviderError {
    /// The request failed: the transport (connection, TLS, timeout) or a status outside
    /// 200..=299; carries the message.
    Request(String),
    /// The body did not have the shape the provider expects; carries a message.
    Parse(String),
    /// A timestamp in the body could not be read; carries that timestamp.
    ParseDateTime(String),
    /// The API key was missing or empty when the provider was built.
    InvalidApiKey(String),
    /// The location was empty; carries it.
    InvalidLocation(String),
    /// Anything else.
    Unexpected(String),
}

/// What can go wrong in the application.
#[derive(Debug, Clone, PartialEq, Eq)]
pub enum AppError {
    /// The settings could not be read or written.
    Config(String),
    /// A provider failed; its error is kept as it was.
    Provider(ProviderError),
    /// No provider is configured.
    NoProvider,
    /// No provider of this name is known; carries the name.
    InvalidProvider(String),
    /// A date given by the user could not be read; carries the text.
    InvalidDate(String),
    /// The providers could not be built for want of API keys; carries a message.
    MissingApiKey(String),
}

} // verus!
