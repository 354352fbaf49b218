//! The `package` section of a manifest: identity and descriptive metadata.

use vstd::prelude::*;

use crate::version::Version;

verus! {

/// A package's identity — `(name, version)` — and its optional metadata.
/// Addresses of web resources are carried as plain text; nothing here reads
/// inside them.
#[derive(Debug, Clone, PartialEq, Eq)]
pub struct Package {
    pub name: String,
    pub version: Version,
    pub description: Option<String>,
    pub authors: Option<Vec<String>>,
    pub license: Option<String>,
    pub readme: Option<String>,
    pub homepage: Option<String>,
    pub repository: Option<String>,
    pub documentation: Option<String>,
}

impl Package {
    /// A package with the given identity and no metadata.
    pub fn new(name: String, version: Version) -> (r: Package)
        ensures
            r.name == name,
            r.version == version,
            r.description is None,
            r.authors is None,
            r.license is None,
            r.readme is None,
            r.homepage is None,
            r.repository is None,
            r.documentation is None,
    {
        Package {
            name,
            version,
            description: None,
            authors: None,
            license: None,
            readme: None,
            homepage: None,
            repository: None,
            documentation: None,
        }
    }
}

} // verus!
