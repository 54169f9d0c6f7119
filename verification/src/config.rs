//! The immutable per-invocation configuration.
//!
//! The stow and target roots arrive already canonicalized (absolute, with
//! plain components); building the configuration validates their shape,
//! picks the mode, and checks every override, defer and ignore pattern
//! against the regex compiler.

use vstd::prelude::*;
use crate::cli::Args;
use crate::error::{ConfigError, RustowError};
use crate::paths::{is_abs_path, is_canonical_shape, path_components, plain_comps};
use crate::patterns::{compile_check, regex_valid};

verus! {

/// The three top-level modes.
#[derive(Debug, Clone, Copy, PartialEq, Eq, Structural)]
pub enum StowMode {
    Stow,
    Delete,
    Restow,
}

/// The per-invocation configuration.  The roots are canonical absolute
/// paths; the pattern lists hold regex texts the compiler accepts.
#[derive(Debug)]
pub struct Config {
    /// Canonical target root.
    pub target_dir: String,
    /// Canonical stow root.
    pub stow_dir: String,
    /// The packages to process, in order.
    pub packages: Vec<String>,
    /// The selected mode.
    pub mode: StowMode,
    /// The explicit stow flag, as given.
    pub stow: bool,
    /// Adopt colliding target files into the package.
    pub adopt: bool,
    /// Disable directory folding.
    pub no_folding: bool,
    /// Rewrite `dot-` prefixes.
    pub dotfiles: bool,
    /// Override patterns.
    pub overrides: Vec<String>,
    /// Defer patterns.
    pub defers: Vec<String>,
    /// Extra ignore patterns for this invocation.
    pub ignore_patterns: Vec<String>,
    /// Plan only; change nothing on disk.
    pub simulate: bool,
    /// Verbosity level.
    pub verbosity: u8,
    /// The user's home directory.
    pub home_dir: String,
}

/// Every pattern of the list is one the regex compiler accepts.
pub open spec fn all_patterns_valid(pats: Seq<Seq<char>>) -> bool {
    forall|i: int| 0 <= i < pats.len() ==> regex_valid(#[trigger] pats[i])
}

impl Config {
    /// The roots have the shape of canonical paths.
    pub open spec fn dirs_ok(&self) -> bool {
        &&& is_abs_path(self.target_dir@)
        &&& plain_comps(path_components(self.target_dir@))
        &&& is_abs_path(self.stow_dir@)
        &&& plain_comps(path_components(self.stow_dir@))
    }

    /// All pattern lists hold accepted regex texts.
    pub open spec fn patterns_ok(&self) -> bool {
        &&& all_patterns_valid(self.overrides.deep_view())
        &&& all_patterns_valid(self.defers.deep_view())
        &&& all_patterns_valid(self.ignore_patterns.deep_view())
    }

    /// A well-formed configuration.
    pub open spec fn wf(&self) -> bool {
        self.dirs_ok() && self.patterns_ok()
    }

    /// The mode an invocation selects: delete wins, then restow, else stow.
    pub open spec fn spec_mode(delete: bool, restow: bool) -> StowMode {
        if delete {
            StowMode::Delete
        } else if restow {
            StowMode::Restow
        } else {
            StowMode::Stow
        }
    }

    /// Builds the configuration from parsed arguments and the resolved
    /// canonical roots.  Succeeds exactly when both roots have canonical
    /// shape and every override, defer and ignore pattern compiles; the
    /// resulting configuration copies the arguments and is well-formed.
    /// Failure names its cause: a malformed stow root, else a malformed
    /// target root, else a rejected pattern out of the given lists.
    pub fn build(args: Args, stow_dir: String, target_dir: String, home_dir: String) -> (r:
        Result<Config, RustowError>)
        ensures
            ({
                let stow_ok = is_abs_path(stow_dir@) && plain_comps(path_components(stow_dir@));
                let target_ok = is_abs_path(target_dir@) && plain_comps(
                    path_components(target_dir@),
                );
                let ok = stow_ok && target_ok && all_patterns_valid(
                    args.override_conflicts.deep_view(),
                ) && all_patterns_valid(args.defer_conflicts.deep_view()) && all_patterns_valid(
                    args.ignore_patterns.deep_view(),
                );
                match r {
                    Ok(c) => {
                        &&& ok
                        &&& c.wf()
                        &&& c.stow_dir@ == stow_dir@
                        &&& c.target_dir@ == target_dir@
                        &&& c.home_dir@ == home_dir@
                        &&& c.packages.deep_view() == args.packages.deep_view()
                        &&& c.mode == Config::spec_mode(args.delete, args.restow)
                        &&& c.stow == args.stow
                        &&& c.adopt == args.adopt
                        &&& c.no_folding == args.no_folding
                        &&& c.dotfiles == args.dotfiles
                        &&& c.simulate == args.simulate
                        &&& c.verbosity == args.verbose
                        &&& c.overrides.deep_view() == args.override_conflicts.deep_view()
                        &&& c.defers.deep_view() == args.defer_conflicts.deep_view()
                        &&& c.ignore_patterns.deep_view() == args.ignore_patterns.deep_view()
                    },
                    Err(e) => !ok && (e matches RustowError::Config(c) && match c {
                        ConfigError::InvalidStowDir(d) => !stow_ok && d@ == stow_dir@,
                        ConfigError::InvalidTargetDir(d) => stow_ok && !target_ok && d@
                            == target_dir@,
                        ConfigError::InvalidRegexPattern(p) => stow_ok && target_ok
                            && !regex_valid(p@) && (args.override_conflicts.deep_view().contains(
                            p@,
                        ) || args.defer_conflicts.deep_view().contains(p@)
                            || args.ignore_patterns.deep_view().contains(p@)),
                        _ => false,
                    }),
                }
            }),
    {
        if !is_canonical_shape(stow_dir.as_str()) {
            return Err(RustowError::Config(ConfigError::InvalidStowDir(stow_dir)));
        }
        if !is_canonical_shape(target_dir.as_str()) {
            return Err(RustowError::Config(ConfigError::InvalidTargetDir(target_dir)));
        }
        if let Some(bad) = first_invalid_pattern(&args.override_conflicts) {
            return Err(RustowError::Config(ConfigError::InvalidRegexPattern(bad)));
        }
        if let Some(bad) = first_invalid_pattern(&args.defer_conflicts) {
            return Err(RustowError::Config(ConfigError::InvalidRegexPattern(bad)));
        }
        if let Some(bad) = first_invalid_pattern(&args.ignore_patterns) {
            return Err(RustowError::Config(ConfigError::InvalidRegexPattern(bad)));
        }
        let mode = if args.delete {
            StowMode::Delete
        } else if args.restow {
            StowMode::Restow
        } else {
            StowMode::Stow
        };
        Ok(
            Config {
                target_dir,
                stow_dir,
                packages: args.packages,
                mode,
                stow: args.stow,
                adopt: args.adopt,
                no_folding: args.no_folding,
                dotfiles: args.dotfiles,
                overrides: args.override_conflicts,
                defers: args.defer_conflicts,
                ignore_patterns: args.ignore_patterns,
                simulate: args.simulate,
                verbosity: args.verbose,
                home_dir,
            },
        )
    }
}

/// The first pattern of the list the regex compiler rejects, if any.
fn first_invalid_pattern(pats: &Vec<String>) -> (r: Option<String>)
    ensures
        match r {
            Some(p) => !regex_valid(p@) && pats.deep_view().contains(p@),
            None => all_patterns_valid(pats.deep_view()),
        },
{
    let ghost pv = pats.deep_view();
    let mut i: usize = 0;
    while i < pats.len()
        invariant
            pv == pats.deep_view(),
            pv.len() == pats.len(),
            0 <= i <= pats.len(),
            forall|j: int| 0 <= j < i ==> regex_valid(#[trigger] pv[j]),
        decreases pats.len() - i,
    {
        match compile_check(pats[i].as_str()) {
            Ok(_) => {
                assert(regex_valid(pv[i as int]));
            },
            Err(_) => {
                let bad = pats[i].clone();
                assert(pv.contains(bad@)) by {
                    assert(pv[i as int] == bad@);
                }
                return Some(bad);
            },
        }
        i += 1;
    }
    None
}

} // verus!
