//! The application's configuration: where the repository and the working
//! packages live.  Reading and writing the configuration document is I/O
//! and stays outside the library; the defaults and the accessors are here.

use vstd::prelude::*;

use crate::paths::path_exists;
use crate::paths::path_join;
use crate::paths::spec_path_join;

verus! {

broadcast use vstd::string::group_string_axioms;

/// The two directories everything else is resolved against.
#[derive(Debug, Clone, PartialEq, Eq)]
pub struct VatConfig {
    pub repository_path: String,
    pub packages_path: String,
}

impl VatConfig {
    /// An empty configuration.
    pub fn new() -> (r: VatConfig)
        ensures
            r.repository_path@.len() == 0,
            r.packages_path@.len() == 0,
    {
        VatConfig { repository_path: String::new(), packages_path: String::new() }
    }

    /// The default configuration under the application directory:
    /// `<app_dir>/repository` and `<app_dir>/packages`.
    pub fn default_under(app_dir: &str) -> (r: VatConfig)
        ensures
            r.repository_path@ == spec_path_join(app_dir@, "repository"@),
            r.packages_path@ == spec_path_join(app_dir@, "packages"@),
    {
        VatConfig {
            repository_path: path_join(app_dir, "repository"),
            packages_path: path_join(app_dir, "packages"),
        }
    }

    /// Whether the repository directory exists on disk.
    pub fn repo_exists(&self) -> bool {
        path_exists(self.repository_path.as_str())
    }

    /// Whether the packages directory exists on disk.
    pub fn packages_exists(&self) -> bool {
        path_exists(self.packages_path.as_str())
    }

    /// The repository directory.
    pub fn get_repository_path(&self) -> (r: String)
        ensures
            r@ == self.repository_path@,
    {
        self.repository_path.clone()
    }

    /// Points the configuration at another repository directory.
    pub fn set_repository_path(&mut self, path: String)
        ensures
            final(self).repository_path == path,
            final(self).packages_path == old(self).packages_path,
    {
        self.repository_path = path;
    }
}

} // verus!
