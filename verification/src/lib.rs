//! A lightweight package / environment manager library.
//!
//! Packages carry a manifest (name, semantic version, environment-variable
//! rules, named commands); a repository keeps a registry of published,
//! immutable versions per package plus a mutable link to each package's
//! live working directory.  Resolving a package address yields a directory,
//! whose manifest's environment rules are folded, in declared order, into a
//! concrete variable mapping that seeds a command launch.

pub mod address;
pub mod assoc;
pub mod command;
pub mod config;
pub mod envmap;
pub mod environment;
pub mod errors;
pub mod package;
pub mod paths;
pub mod platform;
pub mod registry;
pub mod repository;
pub mod runner;
pub mod stack;
pub mod strutil;
pub mod variables;
pub mod vat;
pub mod version;
