//! Patch-release discovery for pinned upstream projects, and the settings and
//! commands of the tool around it.
//!
//! The crate decides whether a newer patch release exists for a project whose
//! version is pinned locally. [`version`] reads versions out of release tags,
//! [`release`] holds the release record, [`fetch`] the rules by which a release
//! catalog is retrieved page by page, [`normalize`] the filter and the ordering of
//! what was retrieved, and [`resolve`] the selection of the release to upgrade to.
//! Network and JSON handling are left to the caller, who feeds the retrieval rules
//! with what each page request produced.
//!
//! Beside that, [`config`] settles the configuration of a connection to a Vault
//! server from the places where its settings can be given, and [`registry`] holds
//! the requests that can be made of an artifact registry.

pub mod config;
pub mod endpoint;
pub mod fetch;
pub mod github_date_format;
pub mod normalize;
pub mod registry;
pub mod release;
pub mod resolve;
pub mod text;
pub mod timestamp;
pub mod version;
