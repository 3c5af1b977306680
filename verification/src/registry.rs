//! What a user asks of an artifact registry.

use vstd::prelude::*;

verus! {

/// A path in the file system, as std holds it. Nothing is read from it here.
#[verifier::external_type_specification]
#[verifier::external_body]
pub struct ExPathBuf(std::path::PathBuf);

/// How to sign in to a registry.
#[derive(Debug, Clone)]
pub struct AuthOpts {
    /// User name; without one the registry is reached anonymously.
    pub user: Option<String>,
    /// Password; without one the registry is reached anonymously.
    pub password: Option<String>,
    /// Allow connections that are not encrypted.
    pub insecure: bool,
}

/// One request to a registry.
#[derive(Debug, Clone)]
pub enum RegistryCommand {
    /// Pull an artifact from a registry.
    Pull(RegistryPullCommand),
    /// Push an artifact to a registry.
    Push(RegistryPushCommand),
    /// Ask whether a registry holds an artifact under an address.
    Ping(RegistryPingCommand),
}

/// A request to pull an artifact.
#[derive(Debug, Clone)]
pub struct RegistryPullCommand {
    /// Address of the artifact.
    pub url: String,
    /// File to which the artifact is written.
    pub destination: Option<String>,
    /// Registry of the artifact, where the address does not name it.
    pub registry: Option<String>,
    /// Digest that the artifact has to match.
    pub digest: Option<String>,
    /// Allow the tag `latest`.
    pub allow_latest: bool,
    pub opts: AuthOpts,
}

/// A request to push an artifact.
#[derive(Debug, Clone)]
pub struct RegistryPushCommand {
    /// Address to push the artifact to.
    pub url: String,
    /// Path of the artifact to push.
    pub artifact: String,
    /// Registry of the artifact, where the address does not name it.
    pub registry: Option<String>,
    /// Path of a configuration file; without one the configuration is blank.
    pub config: Option<std::path::PathBuf>,
    /// Allow the tag `latest`.
    pub allow_latest: bool,
    /// Annotations to put on the artifact's manifest.
    pub annotations: Option<Vec<String>>,
    pub opts: AuthOpts,
}

/// A request to ask a registry for an artifact without pulling it.
#[derive(Debug, Clone)]
pub struct RegistryPingCommand {
    /// Address of the artifact.
    pub url: String,
    /// Registry of the artifact, where the address does not name it.
    pub registry: Option<String>,
    pub opts: AuthOpts,
}

} // verus!
