//! The error taxonomy: configuration, stow, filesystem and ignore errors,
//! gathered under one top-level error type.
//!
//! Filesystem errors carry the path they concern and the kind of the
//! underlying operating-system failure as plain values, so that equality
//! and messages are fully specified.

use vstd::prelude::*;
use crate::strutil::{dec_str, u8_to_string};

verus! {

/// The kind of an underlying operating-system failure.
#[derive(Debug, Clone, Copy, PartialEq, Eq, Structural)]
pub enum IoKind {
    NotFound,
    PermissionDenied,
    AlreadyExists,
    InvalidInput,
    Unsupported,
    Other,
}

/// A fault in the invocation's configuration.
#[derive(Debug, Clone)]
pub enum ConfigError {
    InvalidTargetDir(String),
    InvalidStowDir(String),
    InvalidPackageName(String),
    InvalidRegexPattern(String),
    InvalidVerbosityLevel(u8),
}

/// A fault at the level of packages and plans.
#[derive(Debug, Clone)]
pub enum StowError {
    Conflict(String),
    PackageNotFound(String),
    InvalidPackageStructure(String),
    OperationFailed(String),
}

/// A fault reported by one filesystem operation.
#[derive(Debug, Clone)]
pub enum FsError {
    Io { path: String, kind: IoKind },
    Canonicalize { path: String, kind: IoKind },
    NotFound(String),
    NotADirectory(String),
    NotASymlink(String),
    CreateSymlink { link_path: String, target_path: String, kind: IoKind },
    ReadSymlink { path: String, kind: IoKind },
    DeleteSymlink { path: String, kind: IoKind },
    CreateDirectory { path: String, kind: IoKind },
    DeleteDirectory { path: String, kind: IoKind },
    MoveItem { source_path: String, destination_path: String, kind: IoKind },
    MoveSamePath(String),
    WalkDir { path: String, kind: IoKind },
}

/// A fault while loading or compiling ignore patterns.
#[derive(Debug, Clone)]
pub enum IgnoreError {
    LoadPatternsError(String),
    InvalidPattern(String),
}

/// Any fault the engine can report.
#[derive(Debug, Clone)]
pub enum RustowError {
    Config(ConfigError),
    Stow(StowError),
    Fs(FsError),
    Ignore(IgnoreError),
    Cli(String),
    Io(String),
    InvalidPattern(String),
}

impl ConfigError {
    /// The one-line description of this error.
    pub fn message(&self) -> (r: String)
        ensures
            r@ == match self {
                ConfigError::InvalidTargetDir(s) => "Invalid target directory: "@ + s@,
                ConfigError::InvalidStowDir(s) => "Invalid stow directory: "@ + s@,
                ConfigError::InvalidPackageName(s) => "Invalid package name: "@ + s@,
                ConfigError::InvalidRegexPattern(s) => "Invalid regex pattern: "@ + s@,
                ConfigError::InvalidVerbosityLevel(v) => "Invalid verbosity level: "@ + dec_str(
                    *v as nat,
                ),
            },
    {
        match self {
            ConfigError::InvalidTargetDir(s) => {
                let mut m = String::from_str("Invalid target directory: ");
                m.append(s.as_str());
                m
            },
            ConfigError::InvalidStowDir(s) => {
                let mut m = String::from_str("Invalid stow directory: ");
                m.append(s.as_str());
                m
            },
            ConfigError::InvalidPackageName(s) => {
                let mut m = String::from_str("Invalid package name: ");
                m.append(s.as_str());
                m
            },
            ConfigError::InvalidRegexPattern(s) => {
                let mut m = String::from_str("Invalid regex pattern: ");
                m.append(s.as_str());
                m
            },
            ConfigError::InvalidVerbosityLevel(v) => {
                let mut m = String::from_str("Invalid verbosity level: ");
                let digits = u8_to_string(*v);
                m.append(digits.as_str());
                m
            },
        }
    }
}

impl StowError {
    /// The one-line description of this error.
    pub fn message(&self) -> (r: String)
        ensures
            r@ == match self {
                StowError::Conflict(s) => "Conflict detected: "@ + s@,
                StowError::PackageNotFound(s) => "Package not found: "@ + s@,
                StowError::InvalidPackageStructure(s) => "Invalid package structure: "@ + s@,
                StowError::OperationFailed(s) => "Operation failed: "@ + s@,
            },
    {
        match self {
            StowError::Conflict(s) => {
                let mut m = String::from_str("Conflict detected: ");
                m.append(s.as_str());
                m
            },
            StowError::PackageNotFound(s) => {
                let mut m = String::from_str("Package not found: ");
                m.append(s.as_str());
                m
            },
            StowError::InvalidPackageStructure(s) => {
                let mut m = String::from_str("Invalid package structure: ");
                m.append(s.as_str());
                m
            },
            StowError::OperationFailed(s) => {
                let mut m = String::from_str("Operation failed: ");
                m.append(s.as_str());
                m
            },
        }
    }
}

impl IgnoreError {
    /// The one-line description of this error.
    pub fn message(&self) -> (r: String)
        ensures
            r@ == match self {
                IgnoreError::LoadPatternsError(s) => "Failed to load ignore patterns: "@ + s@,
                IgnoreError::InvalidPattern(s) => "Invalid ignore pattern: "@ + s@,
            },
    {
        match self {
            IgnoreError::LoadPatternsError(s) => {
                let mut m = String::from_str("Failed to load ignore patterns: ");
                m.append(s.as_str());
                m
            },
            IgnoreError::InvalidPattern(s) => {
                let mut m = String::from_str("Invalid ignore pattern: ");
                m.append(s.as_str());
                m
            },
        }
    }
}

impl FsError {
    /// The path this error concerns (the link path, for symlink creation;
    /// the source, for a move).
    pub fn path(&self) -> (r: &String)
        ensures
            r@ == self.spec_path(),
    {
        match self {
            FsError::Io { path, .. } => path,
            FsError::Canonicalize { path, .. } => path,
            FsError::NotFound(p) => p,
            FsError::NotADirectory(p) => p,
            FsError::NotASymlink(p) => p,
            FsError::CreateSymlink { link_path, .. } => link_path,
            FsError::ReadSymlink { path, .. } => path,
            FsError::DeleteSymlink { path, .. } => path,
            FsError::CreateDirectory { path, .. } => path,
            FsError::DeleteDirectory { path, .. } => path,
            FsError::MoveItem { source_path, .. } => source_path,
            FsError::MoveSamePath(p) => p,
            FsError::WalkDir { path, .. } => path,
        }
    }

    /// The path this error concerns.
    pub open spec fn spec_path(&self) -> Seq<char> {
        match self {
            FsError::Io { path, .. } => path@,
            FsError::Canonicalize { path, .. } => path@,
            FsError::NotFound(p) => p@,
            FsError::NotADirectory(p) => p@,
            FsError::NotASymlink(p) => p@,
            FsError::CreateSymlink { link_path, .. } => link_path@,
            FsError::ReadSymlink { path, .. } => path@,
            FsError::DeleteSymlink { path, .. } => path@,
            FsError::CreateDirectory { path, .. } => path@,
            FsError::DeleteDirectory { path, .. } => path@,
            FsError::MoveItem { source_path, .. } => source_path@,
            FsError::MoveSamePath(p) => p@,
            FsError::WalkDir { path, .. } => path@,
        }
    }

    /// Structural equality of two filesystem errors: the same variant,
    /// the same paths, and the same failure kind.
    pub open spec fn eq_view(self, other: Self) -> bool {
        match (self, other) {
            (FsError::Io { path: p1, kind: k1 }, FsError::Io { path: p2, kind: k2 }) => p1@ == p2@
                && k1 == k2,
            (
                FsError::Canonicalize { path: p1, kind: k1 },
                FsError::Canonicalize { path: p2, kind: k2 },
            ) => p1@ == p2@ && k1 == k2,
            (FsError::NotFound(p1), FsError::NotFound(p2)) => p1@ == p2@,
            (FsError::NotADirectory(p1), FsError::NotADirectory(p2)) => p1@ == p2@,
            (FsError::NotASymlink(p1), FsError::NotASymlink(p2)) => p1@ == p2@,
            (
                FsError::CreateSymlink { link_path: l1, target_path: t1, kind: k1 },
                FsError::CreateSymlink { link_path: l2, target_path: t2, kind: k2 },
            ) => l1@ == l2@ && t1@ == t2@ && k1 == k2,
            (
                FsError::ReadSymlink { path: p1, kind: k1 },
                FsError::ReadSymlink { path: p2, kind: k2 },
            ) => p1@ == p2@ && k1 == k2,
            (
                FsError::DeleteSymlink { path: p1, kind: k1 },
                FsError::DeleteSymlink { path: p2, kind: k2 },
            ) => p1@ == p2@ && k1 == k2,
            (
                FsError::CreateDirectory { path: p1, kind: k1 },
                FsError::CreateDirectory { path: p2, kind: k2 },
            ) => p1@ == p2@ && k1 == k2,
            (
                FsError::DeleteDirectory { path: p1, kind: k1 },
                FsError::DeleteDirectory { path: p2, kind: k2 },
            ) => p1@ == p2@ && k1 == k2,
            (
                FsError::MoveItem { source_path: s1, destination_path: d1, kind: k1 },
                FsError::MoveItem { source_path: s2, destination_path: d2, kind: k2 },
            ) => s1@ == s2@ && d1@ == d2@ && k1 == k2,
            (FsError::MoveSamePath(p1), FsError::MoveSamePath(p2)) => p1@ == p2@,
            (FsError::WalkDir { path: p1, kind: k1 }, FsError::WalkDir { path: p2, kind: k2 }) =>
                p1@ == p2@ && k1 == k2,
            _ => false,
        }
    }
}

impl PartialEq for FsError {
    fn eq(&self, other: &Self) -> (r: bool) {
        match (self, other) {
            (FsError::Io { path: p1, kind: k1 }, FsError::Io { path: p2, kind: k2 }) => crate::strutil::str_eq(p1.as_str(), p2.as_str())
                && *k1 == *k2,
            (
                FsError::Canonicalize { path: p1, kind: k1 },
                FsError::Canonicalize { path: p2, kind: k2 },
            ) => crate::strutil::str_eq(p1.as_str(), p2.as_str()) && *k1 == *k2,
            (FsError::NotFound(p1), FsError::NotFound(p2)) => crate::strutil::str_eq(p1.as_str(), p2.as_str()),
            (FsError::NotADirectory(p1), FsError::NotADirectory(p2)) => crate::strutil::str_eq(p1.as_str(), p2.as_str()),
            (FsError::NotASymlink(p1), FsError::NotASymlink(p2)) => crate::strutil::str_eq(p1.as_str(), p2.as_str()),
            (
                FsError::CreateSymlink { link_path: l1, target_path: t1, kind: k1 },
                FsError::CreateSymlink { link_path: l2, target_path: t2, kind: k2 },
            ) => crate::strutil::str_eq(l1.as_str(), l2.as_str()) && crate::strutil::str_eq(t1.as_str(), t2.as_str()) && *k1 == *k2,
            (
                FsError::ReadSymlink { path: p1, kind: k1 },
                FsError::ReadSymlink { path: p2, kind: k2 },
            ) => crate::strutil::str_eq(p1.as_str(), p2.as_str()) && *k1 == *k2,
            (
                FsError::DeleteSymlink { path: p1, kind: k1 },
                FsError::DeleteSymlink { path: p2, kind: k2 },
            ) => crate::strutil::str_eq(p1.as_str(), p2.as_str()) && *k1 == *k2,
            (
                FsError::CreateDirectory { path: p1, kind: k1 },
                FsError::CreateDirectory { path: p2, kind: k2 },
            ) => crate::strutil::str_eq(p1.as_str(), p2.as_str()) && *k1 == *k2,
            (
                FsError::DeleteDirectory { path: p1, kind: k1 },
                FsError::DeleteDirectory { path: p2, kind: k2 },
            ) => crate::strutil::str_eq(p1.as_str(), p2.as_str()) && *k1 == *k2,
            (
                FsError::MoveItem { source_path: s1, destination_path: d1, kind: k1 },
                FsError::MoveItem { source_path: s2, destination_path: d2, kind: k2 },
            ) => crate::strutil::str_eq(s1.as_str(), s2.as_str()) && crate::strutil::str_eq(d1.as_str(), d2.as_str()) && *k1 == *k2,
            (FsError::MoveSamePath(p1), FsError::MoveSamePath(p2)) => crate::strutil::str_eq(p1.as_str(), p2.as_str()),
            (FsError::WalkDir { path: p1, kind: k1 }, FsError::WalkDir { path: p2, kind: k2 }) =>
                crate::strutil::str_eq(p1.as_str(), p2.as_str()) && *k1 == *k2,
            _ => false,
        }
    }
}

impl vstd::std_specs::cmp::PartialEqSpecImpl for FsError {
    open spec fn obeys_eq_spec() -> bool {
        true
    }

    open spec fn eq_spec(&self, other: &Self) -> bool {
        self.eq_view(*other)
    }
}

} // verus!
