//! What is handed in to be published: a package with its metadata, its
//! capabilities and its source.

use crate::semver::SemVer;
use vstd::prelude::*;
use vstd::string::StringExecFns;

verus! {

/// An author of a package.
#[derive(Debug, Clone, PartialEq, Eq)]
pub struct Author {
    pub name: String,
    pub email: Option<String>,
}

/// What is told about a package.
#[derive(Debug, Clone, PartialEq, Eq)]
pub struct PkgMeta {
    pub authors: Vec<Author>,
    pub description: Option<String>,
    pub documentation: Option<String>,
    pub license: Option<String>,
    pub repository: Option<String>,
}

/// Where in a git history a package was built.
#[derive(Debug, Clone, PartialEq, Eq)]
pub struct GitInfo {
    pub commit_hash_short: String,
    pub commits_past_tag: Option<u64>,
    pub tag: Option<String>,
    pub dirty: bool,
}

/// A remote registry that holds the code of a package.
#[derive(Debug, Clone, PartialEq, Eq)]
pub struct Registry {
    pub registry_type: Option<String>,
    pub registry_hostname: String,
    pub namespace: String,
}

/// The source of a package: its version, the digest of its code, and
/// either the code itself, with or without git information, or the registry
/// that holds it.
#[derive(Debug, Clone, PartialEq, Eq)]
pub struct Source {
    pub version: SemVer,
    pub digest: String,
    pub wasm: Option<Vec<u8>>,
    pub git_info: Option<GitInfo>,
    pub registry: Option<Registry>,
}

impl Source {
    /// Whether the source is of exactly one kind: code that is handed in,
    /// with or without git information, or a registry and nothing else.
    pub open spec fn valid(self) -> bool {
        match (self.wasm, self.registry) {
            (Some(w), None) => true,
            (None, Some(r)) => self.git_info is None,
            _ => false,
        }
    }

    /// Tells whether the source is of exactly one kind.
    pub fn is_valid(&self) -> (b: bool)
        ensures
            b == self.valid(),
    {
        match (&self.wasm, &self.registry) {
            (Some(_), None) => true,
            (None, Some(_)) => self.git_info.is_none(),
            _ => false,
        }
    }
}

/// What a package may do on the network.
#[derive(Debug, Clone, PartialEq, Eq)]
pub struct Capabilities {
    pub network: bool,
    pub websocket: bool,
    pub url_whitelist: Vec<String>,
}

/// The kind of a package.
#[derive(Debug, Clone, Copy, PartialEq, Eq)]
pub enum PkgType {
    Contract,
    Agent,
}

impl PkgType {
    /// The kind in text.
    pub open spec fn text(self) -> Seq<char> {
        match self {
            PkgType::Contract => "contract"@,
            PkgType::Agent => "agent"@,
        }
    }

    /// The kind in text: `contract` or `agent`.
    pub fn to_string(&self) -> (r: String)
        ensures
            r@ == self.text(),
    {
        match self {
            PkgType::Contract => String::from_str("contract"),
            PkgType::Agent => String::from_str("agent"),
        }
    }
}

/// A package as it is handed in to be published.
#[derive(Debug, Clone, PartialEq, Eq)]
pub struct WasmPkg {
    pub name: String,
    pub app_name: Option<String>,
    pub app_module: Option<String>,
    pub capabilities: Option<Capabilities>,
    pub pkg_type: PkgType,
    pub meta: PkgMeta,
    pub source: Source,
}

} // verus!
