//! Zephyr packages: the description that a package's `package.toml` holds, and
//! what loading it answers. Finding and reading the file, and reading TOML
//! into a [`Package`], are left to the caller.
use vstd::prelude::*;

use crate::errors::{ErrorCode, ZephyrError};
use crate::text::owned;
use crate::tokens::{is_no_location, Location};

verus! {

/// A package that this package depends on.
#[derive(Debug)]
pub struct PackageDependency {
    pub name: String,
    pub version: String,
}

/// What `package.toml` says of a package; a field it leaves out is empty.
#[derive(Debug)]
pub struct Package {
    pub name: String,
    pub version: String,
    pub author: String,
    pub description: String,
    pub entry_point: String,
    pub dependencies: Vec<PackageDependency>,
}

/// An error of the runtime, at `location`.
pub fn runtime_error(message: String, location: Location) -> (e: ZephyrError)
    ensures
        e.code == ErrorCode::RuntimeError,
        e.message == message,
        e.location == Some(location),
{
    ZephyrError { code: ErrorCode::RuntimeError, message, location: Some(location) }
}

/// The message given where `package.toml` is missing from `dir`.
pub open spec fn missing_manifest_message(dir: Seq<char>) -> Seq<char> {
    "Cannot find the package.toml in "@ + dir
}

/// The message given where `package.toml` does not read as a package: `dir` is
/// the directory as `Debug` writes a path (quoted, with quotes, backslashes
/// and control characters escaped), `reason` says why.
pub open spec fn bad_manifest_message(dir: Seq<char>, reason: Seq<char>) -> Seq<char> {
    "Failed to parse "@ + dir + " (package.toml file): "@ + reason
}

/// `r` is the runtime error with `message`, located nowhere in the source.
pub open spec fn is_runtime_error(r: Result<Package, ZephyrError>, message: Seq<char>) -> bool {
    match r {
        Err(e) => e.code == ErrorCode::RuntimeError && e.message@ == message && match e.location {
            Some(l) => is_no_location(l),
            None => false,
        },
        Ok(_) => false,
    }
}

/// Answers for the reading of a package's `package.toml`: `base_directory` is
/// the package's directory as `Debug` writes a path, and `parsed` the package
/// read from the file, or why it could not be read.
pub fn parse_package_file(base_directory: &str, parsed: Result<Package, String>) -> (r: Result<
    Package,
    ZephyrError,
>)
    ensures
        match parsed {
            Ok(p) => r == Ok::<Package, ZephyrError>(p),
            Err(reason) => is_runtime_error(r, bad_manifest_message(base_directory@, reason@)),
        },
{
    match parsed {
        Ok(p) => Ok(p),
        Err(reason) => {
            let message = owned("Failed to parse ").concat(base_directory).concat(" (package.toml file): ").concat(
                reason.as_str(),
            );
            Err(runtime_error(message, Location::no_location()))
        },
    }
}

/// Loads the package in `package_directory`, whose text as `Debug` writes a
/// path is `package_directory_debug`. `manifest` is `None` where the directory
/// has no `package.toml`, else what reading it gave.
pub fn load_package(package_directory: &str, package_directory_debug: &str, manifest: Option<Result<Package, String>>) -> (r: Result<
    Package,
    ZephyrError,
>)
    ensures
        match manifest {
            None => is_runtime_error(r, missing_manifest_message(package_directory@)),
            Some(Ok(p)) => r == Ok::<Package, ZephyrError>(p),
            Some(Err(reason)) => is_runtime_error(r, bad_manifest_message(package_directory_debug@, reason@)),
        },
{
    match manifest {
        None => {
            let message = owned("Cannot find the package.toml in ").concat(package_directory);
            Err(runtime_error(message, Location::no_location()))
        },
        Some(parsed) => parse_package_file(package_directory_debug, parsed),
    }
}

} // verus!
