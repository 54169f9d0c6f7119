//! Planning and execution decisions for stow, delete and restow.
//!
//! The planner turns package items and target observations into planned
//! actions; the conflict resolver marks collisions across packages; the
//! executor decisions turn each planned action and a fresh observation
//! into the filesystem operations to perform and the report to emit.

use vstd::prelude::*;
use crate::config::Config;
use crate::paths::path_components;
use crate::patterns::{pattern_is_match, pattern_matches};
use crate::strutil::str_eq;

verus! {

/// The type of a package item carried into planning.
#[derive(Debug, Clone, Copy, PartialEq, Eq, Hash, Structural)]
pub enum StowItemType {
    File,
    Directory,
    Symlink,
}

/// A package item enriched with its name in the target.
#[derive(Debug)]
pub struct StowItem {
    /// Path of the item from the package root.
    pub package_relative_path: String,
    /// Absolute path of the item in the stow directory.
    pub source_path: String,
    /// The item's type in the package.
    pub item_type: StowItemType,
    /// The item's path as it appears in the target, after dot-file
    /// rewriting of each component.
    pub target_name_after_dotfiles_processing: String,
}

impl Clone for StowItem {
    fn clone(&self) -> (r: Self)
        ensures
            r == *self,
    {
        StowItem {
            package_relative_path: self.package_relative_path.clone(),
            source_path: self.source_path.clone(),
            item_type: self.item_type,
            target_name_after_dotfiles_processing: self.target_name_after_dotfiles_processing.clone(),
        }
    }
}

/// One kind of planned work.
#[derive(Debug, Clone, Copy, PartialEq, Eq, Structural)]
pub enum ActionType {
    CreateSymlink,
    DeleteSymlink,
    CreateDirectory,
    DeleteDirectory,
    AdoptFile,
    AdoptDirectory,
    Skip,
    Conflict,
}

/// One unit of planned work on a target path.
#[derive(Debug)]
pub struct TargetAction {
    /// The package item this action stems from; absent for deletions of
    /// links found on disk.
    pub source_item: Option<StowItem>,
    /// Absolute path in the target directory.
    pub target_path: String,
    /// The value the symlink shall hold, for symlink creation.
    pub link_target_path: Option<String>,
    /// The kind of work.
    pub action_type: ActionType,
    /// The conflict's description, when the action is a conflict, or a
    /// skip's reason.
    pub conflict_details: Option<String>,
}

impl Clone for TargetAction {
    fn clone(&self) -> (r: Self)
        ensures
            r == *self,
    {
        TargetAction {
            source_item: match &self.source_item {
                Some(it) => Some(it.clone()),
                None => None,
            },
            target_path: self.target_path.clone(),
            link_target_path: match &self.link_target_path {
                Some(p) => Some(p.clone()),
                None => None,
            },
            action_type: self.action_type,
            conflict_details: match &self.conflict_details {
                Some(d) => Some(d.clone()),
                None => None,
            },
        }
    }
}

/// The outcome of attempting one action.
#[derive(Debug)]
pub enum TargetActionReportStatus {
    Success,
    Skipped,
    ConflictPrevented,
    Failure(String),
}

impl Clone for TargetActionReportStatus {
    fn clone(&self) -> (r: Self)
        ensures
            r == *self,
    {
        match self {
            TargetActionReportStatus::Success => TargetActionReportStatus::Success,
            TargetActionReportStatus::Skipped => TargetActionReportStatus::Skipped,
            TargetActionReportStatus::ConflictPrevented => TargetActionReportStatus::ConflictPrevented,
            TargetActionReportStatus::Failure(m) => TargetActionReportStatus::Failure(m.clone()),
        }
    }
}

/// The report for one attempted action.
#[derive(Debug)]
pub struct TargetActionReport {
    /// The action that was planned.
    pub original_action: TargetAction,
    /// How the attempt ended.
    pub status: TargetActionReportStatus,
    /// Further detail.
    pub message: Option<String>,
}

impl Clone for TargetActionReport {
    fn clone(&self) -> (r: Self)
        ensures
            r == *self,
    {
        TargetActionReport {
            original_action: self.original_action.clone(),
            status: self.status.clone(),
            message: match &self.message {
                Some(m) => Some(m.clone()),
                None => None,
            },
        }
    }
}

/// Decides overrides and defers for a colliding target.
pub struct PatternMatcher {
    overrides: Vec<String>,
    defers: Vec<String>,
    target_dir: String,
}

/// Whether some pattern of the list matches the text.
pub open spec fn spec_any_match(pats: Seq<Seq<char>>, text: Seq<char>) -> bool {
    exists|i: int| 0 <= i < pats.len() && pattern_matches(#[trigger] pats[i], text)
}

/// The target path relative to the root, as a string, when the target
/// lies under the root.
pub open spec fn spec_rel_to_root(target: Seq<char>, root: Seq<char>) -> Option<Seq<char>> {
    let tc = path_components(target);
    let rc = path_components(root);
    if rc.len() <= tc.len() && tc.take(rc.len() as int) == rc {
        Some(crate::paths::join_rel(tc.skip(rc.len() as int)))
    } else {
        None
    }
}

/// What pattern resolution says for a colliding target: defer wins over
/// override; neither leaves the collision unresolved.
pub open spec fn spec_pattern_resolution(
    defers: Seq<Seq<char>>,
    overrides: Seq<Seq<char>>,
    rel: Seq<char>,
) -> Option<ActionType> {
    if spec_any_match(defers, rel) {
        Some(ActionType::Skip)
    } else if spec_any_match(overrides, rel) {
        Some(ActionType::CreateSymlink)
    } else {
        None
    }
}

/// The first pattern of the list that matches, if any.
fn find_matching_pattern(pats: &Vec<String>, text: &str) -> (r: Option<usize>)
    ensures
        match r {
            Some(i) => i < pats@.len() && pattern_matches(pats.deep_view()[i as int], text@),
            None => !spec_any_match(pats.deep_view(), text@),
        },
{
    let ghost pv = pats.deep_view();
    let mut i: usize = 0;
    while i < pats.len()
        invariant
            pv == pats.deep_view(),
            pv.len() == pats.len(),
            0 <= i <= pats.len(),
            forall|j: int| 0 <= j < i ==> !pattern_matches(#[trigger] pv[j], text@),
        decreases pats.len() - i,
    {
        if pattern_is_match(pats[i].as_str(), text) {
            assert(pattern_matches(pv[i as int], text@));
            return Some(i);
        }
        i += 1;
    }
    None
}

impl PatternMatcher {
    /// The override patterns this matcher applies.
    pub closed spec fn spec_overrides(&self) -> Seq<Seq<char>> {
        self.overrides.deep_view()
    }

    /// The defer patterns this matcher applies.
    pub closed spec fn spec_defers(&self) -> Seq<Seq<char>> {
        self.defers.deep_view()
    }

    /// The target root the matcher strips from target paths.
    pub closed spec fn spec_target_dir(&self) -> Seq<char> {
        self.target_dir@
    }

    /// A matcher for the invocation's override and defer patterns.
    pub fn new(config: &Config) -> (r: PatternMatcher)
        ensures
            r.spec_overrides() == config.overrides.deep_view(),
            r.spec_defers() == config.defers.deep_view(),
            r.spec_target_dir() == config.target_dir@,
    {
        PatternMatcher {
            overrides: clone_string_vec(&config.overrides),
            defers: clone_string_vec(&config.defers),
            target_dir: config.target_dir.clone(),
        }
    }

    /// Applies defer and override patterns to the target's path relative
    /// to the target root.  Defer wins over override; a target outside
    /// the root resolves nothing.
    pub fn check_patterns(&self, target_path_abs: &str, link_target: String) -> (r: Option<
        (ActionType, String, Option<String>),
    >)
        ensures
            match spec_rel_to_root(target_path_abs@, self.spec_target_dir()) {
                None => r is None,
                Some(rel) => match spec_pattern_resolution(
                    self.spec_defers(),
                    self.spec_overrides(),
                    rel,
                ) {
                    Some(ActionType::Skip) => match r {
                        Some(t) => t.0 == ActionType::Skip && t.2 is None,
                        None => false,
                    },
                    Some(_) => match r {
                        Some(t) => t.0 == ActionType::CreateSymlink && t.2 == Some(link_target),
                        None => false,
                    },
                    None => r is None,
                },
            },
    {
        let target_comps = crate::paths::split_path(target_path_abs);
        let root_comps = crate::paths::split_path(self.target_dir.as_str());
        if !crate::paths::comps_have_prefix(&target_comps, &root_comps) {
            return None;
        }
        let mut rel_comps: Vec<String> = Vec::new();
        let mut i: usize = root_comps.len();
        let ghost tv = target_comps.deep_view();
        while i < target_comps.len()
            invariant
                tv == target_comps.deep_view(),
                tv.len() == target_comps.len(),
                root_comps@.len() <= i <= target_comps.len(),
                rel_comps.deep_view() == tv.subrange(root_comps@.len() as int, i as int),
            decreases target_comps.len() - i,
        {
            let ghost before = rel_comps.deep_view();
            let elem = target_comps[i].clone();
            assert(elem@ == tv[i as int]);
            rel_comps.push(elem);
            proof {
                assert(rel_comps.deep_view() =~= before.push(tv[i as int]));
                assert(before.push(tv[i as int]) =~= tv.subrange(
                    root_comps@.len() as int,
                    i + 1int,
                ));
            }
            i += 1;
        }
        assert(rel_comps.deep_view() =~= tv.skip(root_comps@.len() as int));
        let rel = crate::paths::join_rel_path(&rel_comps);
        if let Some(_d) = find_matching_pattern(&self.defers, rel.as_str()) {
            return Some(
                (
                    ActionType::Skip,
                    String::from_str("Deferred due to pattern match"),
                    None,
                ),
            );
        }
        if let Some(_o) = find_matching_pattern(&self.overrides, rel.as_str()) {
            return Some(
                (
                    ActionType::CreateSymlink,
                    String::from_str("Overriding existing target due to pattern match"),
                    Some(link_target),
                ),
            );
        }
        None
    }
}

/// A copy of a list of strings.
fn clone_string_vec(v: &Vec<String>) -> (r: Vec<String>)
    ensures
        r.deep_view() == v.deep_view(),
{
    let ghost vv = v.deep_view();
    let mut out: Vec<String> = Vec::new();
    let mut i: usize = 0;
    while i < v.len()
        invariant
            vv == v.deep_view(),
            vv.len() == v.len(),
            0 <= i <= v.len(),
            out.deep_view() == vv.take(i as int),
        decreases v.len() - i,
    {
        let ghost before = out.deep_view();
        let elem = v[i].clone();
        assert(elem@ == vv[i as int]);
        out.push(elem);
        proof {
            assert(out.deep_view() =~= before.push(vv[i as int]));
            assert(before.push(vv[i as int]) =~= vv.take(i + 1int));
        }
        i += 1;
    }
    assert(vv.take(v.len() as int) =~= vv);
    out
}

/// The parent path of an absolute target path: its components without
/// the last one.
pub open spec fn spec_parent_comps(p: Seq<char>) -> Seq<Seq<char>> {
    let cs = path_components(p);
    if cs.len() > 0 {
        cs.drop_last()
    } else {
        cs
    }
}

/// Whether, among the actions, one with the given target path is already
/// a conflict.
pub open spec fn spec_conflict_at(actions: Seq<TargetAction>, path_comps: Seq<Seq<char>>) -> bool {
    exists|j: int|
        0 <= j < actions.len() && (#[trigger] actions[j]).action_type == ActionType::Conflict
            && path_components(actions[j].target_path@) == path_comps
}

/// Detects and resolves collisions between packages.
pub struct ConflictResolver {
}

/// Whether another non-conflict action aims at the same target path.
pub open spec fn spec_inter_package_dup(actions: Seq<TargetAction>, i: int) -> bool {
    exists|j: int|
        0 <= j < actions.len() && j != i && (#[trigger] actions[j]).action_type
            != ActionType::Conflict && actions[j].target_path@ == actions[i].target_path@
}

impl ConflictResolver {
    /// A resolver for the invocation.
    pub fn new(_config: &Config) -> (r: ConflictResolver) {
        ConflictResolver {  }
    }

    /// Marks every pair of non-conflict actions that aim at the same
    /// target path as conflicts; everything else is left as it was.
    pub fn resolve_inter_package_conflicts(&self, actions: &mut Vec<TargetAction>)
        ensures
            final(actions)@.len() == old(actions)@.len(),
            forall|i: int|
                0 <= i < old(actions)@.len() ==> {
                    let a0 = old(actions)@[i];
                    let a1 = #[trigger] final(actions)@[i];
                    if a0.action_type != ActionType::Conflict && spec_inter_package_dup(
                        old(actions)@,
                        i,
                    ) {
                        &&& a1.action_type == ActionType::Conflict
                        &&& a1.target_path@ == a0.target_path@
                        &&& a1.source_item == a0.source_item
                        &&& a1.link_target_path is None
                        &&& a1.conflict_details is Some
                    } else {
                        a1 == a0
                    }
                },
    {
        let ghost orig = actions@;
        let n = actions.len();
        let mut dup: Vec<bool> = Vec::new();
        let mut i: usize = 0;
        while i < n
            invariant
                orig == actions@,
                n == actions@.len(),
                0 <= i <= n,
                dup@.len() == i,
                forall|k: int|
                    0 <= k < i ==> #[trigger] dup@[k] == (orig[k].action_type
                        != ActionType::Conflict && spec_inter_package_dup(orig, k)),
            decreases n - i,
        {
            let mut found: bool = false;
            if !matches!(actions[i].action_type, ActionType::Conflict) {
                let mut j: usize = 0;
                while j < n
                    invariant
                        orig == actions@,
                        n == actions@.len(),
                        0 <= i < n,
                        0 <= j <= n,
                        found ==> spec_inter_package_dup(orig, i as int),
                        !found ==> forall|q: int|
                            0 <= q < j ==> !(q != i && (#[trigger] orig[q]).action_type
                                != ActionType::Conflict && orig[q].target_path@ == orig[
                                i as int
                            ].target_path@),
                    decreases n - j,
                {
                    if j != i && !matches!(actions[j].action_type, ActionType::Conflict) && str_eq(
                        actions[j].target_path.as_str(),
                        actions[i].target_path.as_str(),
                    ) {
                        found = true;
                    }
                    j += 1;
                }
            }
            dup.push(found);
            i += 1;
        }
        let mut out: Vec<TargetAction> = Vec::new();
        let mut k: usize = 0;
        while k < n
            invariant
                orig == actions@,
                n == actions@.len(),
                dup@.len() == n,
                forall|q: int|
                    0 <= q < n ==> #[trigger] dup@[q] == (orig[q].action_type
                        != ActionType::Conflict && spec_inter_package_dup(orig, q)),
                0 <= k <= n,
                out@.len() == k,
                forall|q: int|
                    0 <= q < k ==> {
                        let a0 = orig[q];
                        let a1 = #[trigger] out@[q];
                        if a0.action_type != ActionType::Conflict && spec_inter_package_dup(
                            orig,
                            q,
                        ) {
                            &&& a1.action_type == ActionType::Conflict
                            &&& a1.target_path@ == a0.target_path@
                            &&& a1.source_item == a0.source_item
                            &&& a1.link_target_path is None
                            &&& a1.conflict_details is Some
                        } else {
                            a1 == a0
                        }
                    },
            decreases n - k,
        {
            let a = actions[k].clone();
            if dup[k] {
                let marked = TargetAction {
                    source_item: a.source_item,
                    target_path: a.target_path,
                    link_target_path: None,
                    action_type: ActionType::Conflict,
                    conflict_details: Some(
                        String::from_str(
                            "Inter-package conflict: multiple packages manage this target path",
                        ),
                    ),
                };
                out.push(marked);
            } else {
                out.push(a);
            }
            k += 1;
        }
        *actions = out;
    }

    /// Marks every non-conflict action whose parent target path is the
    /// target of a conflict as a conflict itself; everything else is left
    /// as it was.
    pub fn propagate_conflicts_to_children(&self, actions: &mut Vec<TargetAction>)
        ensures
            final(actions)@.len() == old(actions)@.len(),
            forall|i: int|
                0 <= i < old(actions)@.len() ==> {
                    let a0 = old(actions)@[i];
                    let a1 = #[trigger] final(actions)@[i];
                    if a0.action_type != ActionType::Conflict && spec_conflict_at(
                        old(actions)@,
                        spec_parent_comps(a0.target_path@),
                    ) {
                        &&& a1.action_type == ActionType::Conflict
                        &&& a1.target_path@ == a0.target_path@
                        &&& a1.source_item == a0.source_item
                        &&& a1.link_target_path is None
                        &&& a1.conflict_details is Some
                    } else {
                        a1 == a0
                    }
                },
    {
        let ghost orig = actions@;
        let n = actions.len();
        let mut hit: Vec<bool> = Vec::new();
        let mut i: usize = 0;
        while i < n
            invariant
                orig == actions@,
                n == actions@.len(),
                0 <= i <= n,
                hit@.len() == i,
                forall|k: int|
                    0 <= k < i ==> #[trigger] hit@[k] == (orig[k].action_type
                        != ActionType::Conflict && spec_conflict_at(
                        orig,
                        spec_parent_comps(orig[k].target_path@),
                    )),
            decreases n - i,
        {
            let mut found: bool = false;
            if !matches!(actions[i].action_type, ActionType::Conflict) {
                let mut parent_comps = crate::paths::split_path(actions[i].target_path.as_str());
                if parent_comps.len() > 0 {
                    parent_comps.pop();
                }
                assert(parent_comps.deep_view() =~= spec_parent_comps(
                    orig[i as int].target_path@,
                ));
                let mut j: usize = 0;
                while j < n
                    invariant
                        orig == actions@,
                        n == actions@.len(),
                        0 <= i < n,
                        0 <= j <= n,
                        parent_comps.deep_view() == spec_parent_comps(orig[i as int].target_path@),
                        found ==> spec_conflict_at(
                            orig,
                            spec_parent_comps(orig[i as int].target_path@),
                        ),
                        !found ==> forall|q: int|
                            0 <= q < j ==> !((#[trigger] orig[q]).action_type
                                == ActionType::Conflict && path_components(orig[q].target_path@)
                                == parent_comps.deep_view()),
                    decreases n - j,
                {
                    if matches!(actions[j].action_type, ActionType::Conflict) {
                        let jc = crate::paths::split_path(actions[j].target_path.as_str());
                        if crate::paths::comps_eq(&jc, &parent_comps) {
                            found = true;
                        }
                    }
                    j += 1;
                }
            }
            hit.push(found);
            i += 1;
        }
        let mut out: Vec<TargetAction> = Vec::new();
        let mut k: usize = 0;
        while k < n
            invariant
                orig == actions@,
                n == actions@.len(),
                hit@.len() == n,
                forall|q: int|
                    0 <= q < n ==> #[trigger] hit@[q] == (orig[q].action_type
                        != ActionType::Conflict && spec_conflict_at(
                        orig,
                        spec_parent_comps(orig[q].target_path@),
                    )),
                0 <= k <= n,
                out@.len() == k,
                forall|q: int|
                    0 <= q < k ==> {
                        let a0 = orig[q];
                        let a1 = #[trigger] out@[q];
                        if a0.action_type != ActionType::Conflict && spec_conflict_at(
                            orig,
                            spec_parent_comps(a0.target_path@),
                        ) {
                            &&& a1.action_type == ActionType::Conflict
                            &&& a1.target_path@ == a0.target_path@
                            &&& a1.source_item == a0.source_item
                            &&& a1.link_target_path is None
                            &&& a1.conflict_details is Some
                        } else {
                            a1 == a0
                        }
                    },
            decreases n - k,
        {
            let a = actions[k].clone();
            if hit[k] {
                let marked = TargetAction {
                    source_item: a.source_item,
                    target_path: a.target_path,
                    link_target_path: None,
                    action_type: ActionType::Conflict,
                    conflict_details: Some(
                        String::from_str("Parent target path is in conflict"),
                    ),
                };
                out.push(marked);
            } else {
                out.push(a);
            }
            k += 1;
        }
        *actions = out;
    }
}

/// Whether the action deletes a symlink.
pub open spec fn spec_is_symlink_delete(a: TargetAction) -> bool {
    a.action_type == ActionType::DeleteSymlink
}

/// The actions of the sequence that delete symlinks, in order.
pub open spec fn spec_symlink_deletes(s: Seq<TargetAction>) -> Seq<TargetAction>
    decreases s.len(),
{
    if s.len() == 0 {
        Seq::<TargetAction>::empty()
    } else {
        let prev = spec_symlink_deletes(s.drop_last());
        if spec_is_symlink_delete(s.last()) {
            prev.push(s.last())
        } else {
            prev
        }
    }
}

/// The actions of the sequence that do not delete symlinks, in order.
pub open spec fn spec_non_symlink_deletes(s: Seq<TargetAction>) -> Seq<TargetAction>
    decreases s.len(),
{
    if s.len() == 0 {
        Seq::<TargetAction>::empty()
    } else {
        let prev = spec_non_symlink_deletes(s.drop_last());
        if spec_is_symlink_delete(s.last()) {
            prev
        } else {
            prev.push(s.last())
        }
    }
}

/// Reorders a deletion plan so that every symlink deletion comes before
/// every other action, keeping the order within each group.
pub fn sort_deletion_actions(actions: &mut Vec<TargetAction>)
    ensures
        final(actions)@ == spec_symlink_deletes(old(actions)@) + spec_non_symlink_deletes(
            old(actions)@,
        ),
{
    let ghost orig = actions@;
    let n = actions.len();
    let mut links: Vec<TargetAction> = Vec::new();
    let mut others: Vec<TargetAction> = Vec::new();
    let mut i: usize = 0;
    while i < n
        invariant
            orig == actions@,
            n == actions@.len(),
            0 <= i <= n,
            links@ == spec_symlink_deletes(orig.take(i as int)),
            others@ == spec_non_symlink_deletes(orig.take(i as int)),
        decreases n - i,
    {
        let ghost pre = orig.take(i as int);
        let ghost post = orig.take(i + 1int);
        proof {
            assert(post.drop_last() =~= pre);
            assert(post.last() == orig[i as int]);
        }
        let a = actions[i].clone();
        if matches!(a.action_type, ActionType::DeleteSymlink) {
            links.push(a);
        } else {
            others.push(a);
        }
        assert(links@ =~= spec_symlink_deletes(post));
        assert(others@ =~= spec_non_symlink_deletes(post));
        i += 1;
    }
    assert(orig.take(n as int) =~= orig);
    let mut j: usize = 0;
    let ghost ov = others@;
    while j < others.len()
        invariant
            ov == others@,
            ov.len() == others.len(),
            0 <= j <= others.len(),
            links@ == spec_symlink_deletes(orig) + ov.take(j as int),
        decreases others.len() - j,
    {
        let ghost before = links@;
        let elem = others[j].clone();
        assert(elem == ov[j as int]);
        links.push(elem);
        proof {
            assert(links@ =~= before.push(ov[j as int]));
            assert(before.push(ov[j as int]) =~= spec_symlink_deletes(orig) + ov.take(j + 1int));
        }
        j += 1;
    }
    assert(ov.take(others.len() as int) =~= ov);
    *actions = links;
}

/// The count of reports with each status.
#[derive(Debug, Clone, Copy, PartialEq, Eq, Structural)]
pub struct ReportSummary {
    pub successes: usize,
    pub skips: usize,
    pub conflicts: usize,
    pub failures: usize,
}

/// How many reports of the prefix have the given status shape.
pub open spec fn spec_count_status(s: Seq<TargetActionReport>, which: int) -> int
    decreases s.len(),
{
    if s.len() == 0 {
        0
    } else {
        let prev = spec_count_status(s.drop_last(), which);
        let matches_last = match s.last().status {
            TargetActionReportStatus::Success => which == 0,
            TargetActionReportStatus::Skipped => which == 1,
            TargetActionReportStatus::ConflictPrevented => which == 2,
            TargetActionReportStatus::Failure(_) => which == 3,
        };
        if matches_last {
            prev + 1
        } else {
            prev
        }
    }
}

/// Counts the reports by status.
pub fn summarize_reports(reports: &Vec<TargetActionReport>) -> (r: ReportSummary)
    ensures
        r.successes == spec_count_status(reports@, 0),
        r.skips == spec_count_status(reports@, 1),
        r.conflicts == spec_count_status(reports@, 2),
        r.failures == spec_count_status(reports@, 3),
{
    let ghost rv = reports@;
    let mut successes: usize = 0;
    let mut skips: usize = 0;
    let mut conflicts: usize = 0;
    let mut failures: usize = 0;
    let mut i: usize = 0;
    while i < reports.len()
        invariant
            rv == reports@,
            rv.len() == reports.len(),
            0 <= i <= reports.len(),
            successes == spec_count_status(rv.take(i as int), 0),
            skips == spec_count_status(rv.take(i as int), 1),
            conflicts == spec_count_status(rv.take(i as int), 2),
            failures == spec_count_status(rv.take(i as int), 3),
            successes + skips + conflicts + failures == i,
        decreases reports.len() - i,
    {
        let ghost pre = rv.take(i as int);
        let ghost post = rv.take(i + 1int);
        proof {
            assert(post.drop_last() =~= pre);
            assert(post.last() == rv[i as int]);
        }
        match reports[i].status {
            TargetActionReportStatus::Success => {
                successes += 1;
            },
            TargetActionReportStatus::Skipped => {
                skips += 1;
            },
            TargetActionReportStatus::ConflictPrevented => {
                conflicts += 1;
            },
            TargetActionReportStatus::Failure(_) => {
                failures += 1;
            },
        }
        i += 1;
    }
    assert(rv.take(reports.len() as int) =~= rv);
    ReportSummary { successes, skips, conflicts, failures }
}

/// Whether every report ended well: the invocation's exit is clean
/// exactly when no conflict was prevented and nothing failed.
pub fn reports_all_clean(reports: &Vec<TargetActionReport>) -> (r: bool)
    ensures
        r == (forall|i: int|
            0 <= i < reports@.len() ==> match (#[trigger] reports@[i]).status {
                TargetActionReportStatus::Success => true,
                TargetActionReportStatus::Skipped => true,
                TargetActionReportStatus::ConflictPrevented => false,
                TargetActionReportStatus::Failure(_) => false,
            }),
{
    let ghost rv = reports@;
    let mut i: usize = 0;
    while i < reports.len()
        invariant
            rv == reports@,
            rv.len() == reports.len(),
            0 <= i <= reports.len(),
            forall|j: int|
                0 <= j < i ==> match (#[trigger] rv[j]).status {
                    TargetActionReportStatus::Success => true,
                    TargetActionReportStatus::Skipped => true,
                    TargetActionReportStatus::ConflictPrevented => false,
                    TargetActionReportStatus::Failure(_) => false,
                },
        decreases reports.len() - i,
    {
        match reports[i].status {
            TargetActionReportStatus::Success => {},
            TargetActionReportStatus::Skipped => {},
            TargetActionReportStatus::ConflictPrevented => {
                return false;
            },
            TargetActionReportStatus::Failure(_) => {
                return false;
            },
        }
        i += 1;
    }
    true
}

/// An item readied for planning: its enriched form, its absolute target
/// path, the relative link value a symlink at that target shall hold, and
/// the package it came from.
#[derive(Debug)]
pub struct PreparedItem {
    /// The enriched item.
    pub stow_item: StowItem,
    /// Absolute path of the item's place in the target.
    pub target_path: String,
    /// The relative link value from the target's parent to the source.
    pub link_target: String,
    /// The package being planned.
    pub package_name: String,
}

/// The components of an item's target-relative path: each component of
/// its package-relative path, rewritten by the dot-file convention.
pub open spec fn spec_rewritten_comps(rel: Seq<char>, enabled: bool) -> Seq<Seq<char>> {
    let cs = path_components(rel);
    Seq::new(cs.len(), |i: int| crate::dotfiles::rewrite_component(cs[i], enabled))
}

/// The planner's enriched item type for a raw item type.
pub open spec fn spec_item_type(t: crate::fs_utils::RawStowItemType) -> StowItemType {
    match t {
        crate::fs_utils::RawStowItemType::File => StowItemType::File,
        crate::fs_utils::RawStowItemType::Directory => StowItemType::Directory,
        crate::fs_utils::RawStowItemType::Symlink => StowItemType::Symlink,
    }
}

/// Readies one raw package item for planning.  The item's components are
/// rewritten by the dot-file convention; an item the ignore set drops
/// yields nothing; otherwise the target path is the target root extended
/// by the rewritten components, and the link value is the relative path
/// from the target's parent to the item's source, whose lexical
/// resolution lands exactly on the source.
pub fn prepare_item_for_stow(
    raw_item: &crate::fs_utils::RawStowItem,
    config: &Config,
    current_ignore_patterns: &crate::ignore::IgnorePatterns,
    package_name: &str,
) -> (r: Result<Option<PreparedItem>, crate::error::RustowError>)
    requires
        config.dirs_ok(),
        crate::paths::is_abs_path(raw_item.absolute_path@),
        crate::paths::plain_comps(path_components(raw_item.absolute_path@)),
        !crate::paths::is_abs_path(raw_item.package_relative_path@),
        path_components(raw_item.package_relative_path@).len() > 0,
    ensures
        ({
            let rw = spec_rewritten_comps(raw_item.package_relative_path@, config.dotfiles);
            let processed = crate::paths::join_rel(rw);
            let base = if rw.len() > 0 { rw.last() } else { Seq::<char>::empty() };
            let ignored = crate::ignore::spec_is_ignored(
                current_ignore_patterns.pats(),
                seq!['/'] + processed,
                base,
            );
            match r {
                Ok(None) => ignored,
                Ok(Some(p)) => {
                    &&& !ignored
                    &&& crate::paths::plain_comps(rw)
                    &&& p.package_name@ == package_name@
                    &&& p.stow_item.package_relative_path@ == raw_item.package_relative_path@
                    &&& p.stow_item.source_path@ == raw_item.absolute_path@
                    &&& p.stow_item.item_type == spec_item_type(raw_item.item_type)
                    &&& p.stow_item.target_name_after_dotfiles_processing@ == processed
                    &&& p.target_path@ == crate::paths::join_abs(
                        path_components(config.target_dir@) + rw,
                    )
                    &&& (exists|rl: Seq<Seq<char>>|
                        {
                            &&& p.link_target@ == crate::paths::join_rel(rl)
                            &&& crate::paths::norm_comps(
                                (path_components(config.target_dir@) + rw).drop_last() + rl,
                            ) == path_components(raw_item.absolute_path@)
                            &&& crate::paths::sep_free(rl)
                            &&& (rl.len() > 0 ==> rl[0][0] != '/')
                        })
                },
                Err(_) => !crate::paths::plain_comps(rw),
            }
        }),
{
    let rel_comps = crate::paths::split_path(raw_item.package_relative_path.as_str());
    let ghost rcs = path_components(raw_item.package_relative_path@);
    let mut processed_comps: Vec<String> = Vec::new();
    let mut i: usize = 0;
    let ghost rw = spec_rewritten_comps(raw_item.package_relative_path@, config.dotfiles);
    while i < rel_comps.len()
        invariant
            rcs == rel_comps.deep_view(),
            rcs.len() == rel_comps.len(),
            rw == spec_rewritten_comps(raw_item.package_relative_path@, config.dotfiles),
            rcs == path_components(raw_item.package_relative_path@),
            rw.len() == rcs.len(),
            0 <= i <= rel_comps.len(),
            processed_comps.deep_view() == rw.take(i as int),
        decreases rel_comps.len() - i,
    {
        let one = crate::dotfiles::process_component(rel_comps[i].as_str(), config.dotfiles);
        let ghost before = processed_comps.deep_view();
        let ghost onev = one@;
        processed_comps.push(one);
        proof {
            assert(processed_comps.deep_view() =~= before.push(onev));
            assert(before.push(onev) =~= rw.take(i + 1int));
        }
        i += 1;
    }
    assert(processed_comps.deep_view() =~= rw);
    if !all_plain(&processed_comps) {
        return Err(
            crate::error::RustowError::Stow(
                crate::error::StowError::InvalidPackageStructure(
                    String::from_str("item name does not rewrite to a plain path component"),
                ),
            ),
        );
    }
    let processed = crate::paths::join_rel_path(&processed_comps);
    let basename = if processed_comps.len() > 0 {
        processed_comps[processed_comps.len() - 1].clone()
    } else {
        String::new()
    };
    assert(basename@ == (if rw.len() > 0 { rw.last() } else { Seq::<char>::empty() }));
    let mut slash_path = String::new();
    crate::strutil::push_char_impl(&mut slash_path, '/');
    slash_path.append(processed.as_str());
    assert(slash_path@ =~= seq!['/'] + processed@);
    if crate::ignore::is_ignored(slash_path.as_str(), basename.as_str(), current_ignore_patterns) {
        return Ok(None);
    }
    let target_root_comps = crate::paths::split_path(config.target_dir.as_str());
    let mut target_comps = target_root_comps;
    let ghost tdc = path_components(config.target_dir@);
    let mut k: usize = 0;
    while k < processed_comps.len()
        invariant
            rw == processed_comps.deep_view(),
            rw.len() == processed_comps.len(),
            0 <= k <= processed_comps.len(),
            target_comps.deep_view() == tdc + rw.take(k as int),
        decreases processed_comps.len() - k,
    {
        let ghost before = target_comps.deep_view();
        let elem = processed_comps[k].clone();
        assert(elem@ == rw[k as int]);
        target_comps.push(elem);
        proof {
            assert(target_comps.deep_view() =~= before.push(rw[k as int]));
            assert(before.push(rw[k as int]) =~= tdc + rw.take(k + 1int));
        }
        k += 1;
    }
    assert(target_comps.deep_view() =~= tdc + rw);
    let target_path = crate::paths::join_abs_path(&target_comps);
    let mut parent_comps = target_comps;
    let ghost whole_target = tdc + rw;
    assert(whole_target.len() > 0);
    parent_comps.pop();
    assert(parent_comps.deep_view() =~= whole_target.drop_last());
    let source_comps = crate::paths::split_path(raw_item.absolute_path.as_str());
    assert(crate::paths::plain_comps(parent_comps.deep_view())) by {
        assert(forall|q: int|
            0 <= q < whole_target.len() ==> crate::paths::plain_seg(#[trigger] whole_target[q]));
        assert(forall|q: int|
            0 <= q < whole_target.drop_last().len() ==> whole_target.drop_last()[q]
                == whole_target[q]);
    }
    let link_comps = crate::paths::relative_path_from(&source_comps, &parent_comps);
    let link_target = crate::paths::join_rel_path(&link_comps);
    let item_type = match raw_item.item_type {
        crate::fs_utils::RawStowItemType::File => StowItemType::File,
        crate::fs_utils::RawStowItemType::Directory => StowItemType::Directory,
        crate::fs_utils::RawStowItemType::Symlink => StowItemType::Symlink,
    };
    let prepared = PreparedItem {
        stow_item: StowItem {
            package_relative_path: raw_item.package_relative_path.clone(),
            source_path: raw_item.absolute_path.clone(),
            item_type,
            target_name_after_dotfiles_processing: processed,
        },
        target_path,
        link_target,
        package_name: package_name.to_owned(),
    };
    proof {
        let rl = link_comps.deep_view();
        assert(prepared.link_target@ == crate::paths::join_rel(rl));
        assert(crate::paths::norm_comps(whole_target.drop_last() + rl) == path_components(
            raw_item.absolute_path@,
        ));
    }
    Ok(Some(prepared))
}

/// Whether every component of the list is plain.
fn all_plain(comps: &Vec<String>) -> (r: bool)
    ensures
        r == crate::paths::plain_comps(comps.deep_view()),
{
    let ghost cv = comps.deep_view();
    let mut i: usize = 0;
    while i < comps.len()
        invariant
            cv == comps.deep_view(),
            cv.len() == comps.len(),
            0 <= i <= comps.len(),
            forall|j: int| 0 <= j < i ==> crate::paths::plain_seg(#[trigger] cv[j]),
        decreases comps.len() - i,
    {
        let c = comps[i].as_str();
        assert(c@ == cv[i as int]);
        if c.unicode_len() == 0 || crate::strutil::str_contains_char(c, '/') || str_eq(c, ".")
            || str_eq(c, "..") {
            assert(!crate::paths::plain_seg(cv[i as int]));
            return false;
        }
        assert(crate::paths::plain_seg(cv[i as int]));
        i += 1;
    }
    true
}

/// Whether a directory entry is not a stow-managed symlink: a
/// non-symlink, or a symlink whose target does not resolve into the stow
/// root.
pub open spec fn spec_is_non_stow_entry(
    e: crate::fs_utils::DirEntryObs,
    stow_dir: Seq<char>,
) -> bool {
    !e.is_symlink || crate::fs_utils::spec_classify_stow_symlink(
        e.path@,
        match e.link_body {
            Some(ref b) => Some(b@),
            None => None,
        },
        stow_dir,
    ) is None
}

/// Whether this directory entry holds non-stow-managed content.
pub fn is_non_stow_entry(entry: &crate::fs_utils::DirEntryObs, stow_dir: &str) -> (r: bool)
    ensures
        r == spec_is_non_stow_entry(*entry, stow_dir@),
{
    if !entry.is_symlink {
        return true;
    }
    let body: Option<&str> = match &entry.link_body {
        Some(b) => Some(b.as_str()),
        None => None,
    };
    let classified = crate::fs_utils::is_stow_symlink(entry.path.as_str(), body, stow_dir);
    classified.is_none()
}

/// Whether the observed directory holds any non-stow-managed entry.
pub open spec fn spec_has_non_stow_entry(
    entries: Seq<crate::fs_utils::DirEntryObs>,
    stow_dir: Seq<char>,
) -> bool {
    exists|i: int| 0 <= i < entries.len() && spec_is_non_stow_entry(#[trigger] entries[i], stow_dir)
}

/// Whether the observed directory holds an entry that is not a
/// stow-managed symlink.
pub fn check_directory_for_non_stow_files(
    obs: &crate::fs_utils::TargetObservation,
    stow_dir: &str,
) -> (r: bool)
    ensures
        r == spec_has_non_stow_entry(obs.entries@, stow_dir@),
{
    let ghost ev = obs.entries@;
    let mut i: usize = 0;
    while i < obs.entries.len()
        invariant
            ev == obs.entries@,
            ev.len() == obs.entries.len(),
            0 <= i <= obs.entries.len(),
            forall|j: int| 0 <= j < i ==> !spec_is_non_stow_entry(#[trigger] ev[j], stow_dir@),
        decreases obs.entries.len() - i,
    {
        if is_non_stow_entry(&obs.entries[i], stow_dir) {
            assert(spec_is_non_stow_entry(ev[i as int], stow_dir@));
            return true;
        }
        i += 1;
    }
    false
}

/// Whether the classification of an existing symlink names this very
/// package and item.
pub open spec fn spec_same_package_and_item(
    classify: Option<(Seq<char>, Seq<Seq<char>>)>,
    item_rel: Seq<char>,
    package_name: Seq<char>,
) -> bool {
    match classify {
        Some(pi) => pi.0 == package_name && crate::paths::join_rel(pi.1) == item_rel,
        None => false,
    }
}

/// Whether an existing symlink's classification names the same package
/// and the same item as the one being planned.
pub fn is_same_package_and_item(
    existing_package_name: &str,
    existing_item_path: &str,
    stow_item: &StowItem,
    package_name: &str,
) -> (r: bool)
    ensures
        r == (existing_package_name@ == package_name@ && existing_item_path@
            == stow_item.package_relative_path@),
{
    str_eq(existing_package_name, package_name) && str_eq(
        existing_item_path,
        stow_item.package_relative_path.as_str(),
    )
}

/// The planner's decision for one item against one observed target
/// state, following the planning table: a missing target gets its
/// directory or symlink; an existing directory stays a directory unless
/// it holds foreign content; a symlink already pointing at this item is
/// skipped; any other occupant goes through defer and override patterns,
/// then adopt, and otherwise stands as a conflict.
pub open spec fn spec_stow_decision(
    ty: StowItemType,
    exists: bool,
    is_dir: bool,
    is_symlink: bool,
    classify: Option<(Seq<char>, Seq<Seq<char>>)>,
    same: bool,
    resolution: Option<ActionType>,
    adopt: bool,
    has_non_stow: bool,
) -> ActionType {
    if !exists {
        if ty == StowItemType::Directory {
            ActionType::CreateDirectory
        } else {
            ActionType::CreateSymlink
        }
    } else if is_dir && ty == StowItemType::Directory {
        if has_non_stow {
            if adopt {
                ActionType::AdoptDirectory
            } else {
                ActionType::Conflict
            }
        } else {
            ActionType::CreateDirectory
        }
    } else if is_symlink && classify is Some {
        if same {
            ActionType::Skip
        } else {
            match resolution {
                Some(k) => k,
                None => ActionType::Conflict,
            }
        }
    } else {
        if is_dir && ty != StowItemType::Directory {
            ActionType::Conflict
        } else if !is_dir && ty == StowItemType::Directory {
            ActionType::Conflict
        } else {
            match resolution {
                Some(k) => k,
                None => {
                    if adopt && ty == StowItemType::File && !is_symlink {
                        ActionType::AdoptFile
                    } else {
                        ActionType::Conflict
                    }
                },
            }
        }
    }
}

/// The classification of the observed target as a stow symlink.
pub open spec fn spec_obs_classify(
    target: Seq<char>,
    obs: crate::fs_utils::TargetObservation,
    stow_dir: Seq<char>,
) -> Option<(Seq<char>, Seq<Seq<char>>)> {
    if obs.is_symlink {
        crate::fs_utils::spec_classify_stow_symlink(
            target,
            match obs.link_body {
                Some(ref b) => Some(b@),
                None => None,
            },
            stow_dir,
        )
    } else {
        None
    }
}

/// The pattern resolution for the observed target.
pub open spec fn spec_obs_resolution(
    target: Seq<char>,
    defers: Seq<Seq<char>>,
    overrides: Seq<Seq<char>>,
    target_dir: Seq<char>,
) -> Option<ActionType> {
    match spec_rel_to_root(target, target_dir) {
        None => None,
        Some(rel) => spec_pattern_resolution(defers, overrides, rel),
    }
}

/// Plans the stow action for one readied item against the observed state
/// of its target path.
pub fn plan_stow_action_for_item(
    prepared: &PreparedItem,
    obs: &crate::fs_utils::TargetObservation,
    config: &Config,
) -> (a: TargetAction)
    requires
        obs.wf(),
    ensures
        a.source_item == Some(prepared.stow_item),
        a.target_path@ == prepared.target_path@,
        ({
            let classify = spec_obs_classify(prepared.target_path@, *obs, config.stow_dir@);
            let same = spec_same_package_and_item(
                classify,
                prepared.stow_item.package_relative_path@,
                prepared.package_name@,
            );
            let resolution = spec_obs_resolution(
                prepared.target_path@,
                config.defers.deep_view(),
                config.overrides.deep_view(),
                config.target_dir@,
            );
            let kind = spec_stow_decision(
                prepared.stow_item.item_type,
                obs.exists,
                obs.is_dir,
                obs.is_symlink,
                classify,
                same,
                resolution,
                config.adopt,
                spec_has_non_stow_entry(obs.entries@, config.stow_dir@),
            );
            &&& a.action_type == kind
            &&& (kind == ActionType::CreateSymlink || kind == ActionType::AdoptFile || kind
                == ActionType::AdoptDirectory ==> a.link_target_path == Some(
                prepared.link_target,
            ))
            &&& (kind == ActionType::CreateDirectory || kind == ActionType::Skip || kind
                == ActionType::Conflict ==> a.link_target_path is None)
            &&& (kind == ActionType::Conflict ==> a.conflict_details is Some)
        }),
{
    let ghost classify = spec_obs_classify(prepared.target_path@, *obs, config.stow_dir@);
    let ghost resolution = spec_obs_resolution(
        prepared.target_path@,
        config.defers.deep_view(),
        config.overrides.deep_view(),
        config.target_dir@,
    );
    let is_dir_item = matches!(prepared.stow_item.item_type, StowItemType::Directory);
    if !obs.exists {
        if is_dir_item {
            return make_action(prepared, ActionType::CreateDirectory, None, None);
        } else {
            return make_action(
                prepared,
                ActionType::CreateSymlink,
                Some(prepared.link_target.clone()),
                None,
            );
        }
    }
    if obs.is_dir && is_dir_item {
        if check_directory_for_non_stow_files(obs, config.stow_dir.as_str()) {
            if config.adopt {
                return make_action(
                    prepared,
                    ActionType::AdoptDirectory,
                    Some(prepared.link_target.clone()),
                    None,
                );
            }
            return make_action(
                prepared,
                ActionType::Conflict,
                None,
                Some(String::from_str("Directory contains non-stow managed files")),
            );
        }
        return make_action(prepared, ActionType::CreateDirectory, None, None);
    }
    if obs.is_symlink {
        let body: Option<&str> = match &obs.link_body {
            Some(b) => Some(b.as_str()),
            None => None,
        };
        let classified = crate::fs_utils::is_stow_symlink(
            prepared.target_path.as_str(),
            body,
            config.stow_dir.as_str(),
        );
        if let Some((existing_package, existing_item)) = classified {
            if is_same_package_and_item(
                existing_package.as_str(),
                existing_item.as_str(),
                &prepared.stow_item,
                prepared.package_name.as_str(),
            ) {
                return make_action(
                    prepared,
                    ActionType::Skip,
                    None,
                    Some(String::from_str("Target already points to the same source")),
                );
            }
            let matcher = PatternMatcher::new(config);
            match matcher.check_patterns(
                prepared.target_path.as_str(),
                prepared.link_target.clone(),
            ) {
                Some((kind, message, link)) => {
                    assert(resolution == Some(kind));
                    return make_action(prepared, kind, link, Some(message));
                },
                None => {
                    return make_action(
                        prepared,
                        ActionType::Conflict,
                        None,
                        Some(String::from_str("Target is managed by another stow package")),
                    );
                },
            }
        }
    }
    handle_file_type_conflicts(prepared, obs, config)
}

/// Plans for an occupied target that is neither this item's own link nor
/// a directory matching a directory item: a type mismatch is a conflict;
/// otherwise defer and override patterns decide, then adopt, and what is
/// left stands as a conflict.
fn handle_file_type_conflicts(
    prepared: &PreparedItem,
    obs: &crate::fs_utils::TargetObservation,
    config: &Config,
) -> (a: TargetAction)
    requires
        obs.wf(),
        obs.exists,
        !(obs.is_dir && prepared.stow_item.item_type == StowItemType::Directory),
    ensures
        a.source_item == Some(prepared.stow_item),
        a.target_path@ == prepared.target_path@,
        ({
            let resolution = spec_obs_resolution(
                prepared.target_path@,
                config.defers.deep_view(),
                config.overrides.deep_view(),
                config.target_dir@,
            );
            let kind = if obs.is_dir && prepared.stow_item.item_type != StowItemType::Directory {
                ActionType::Conflict
            } else if !obs.is_dir && prepared.stow_item.item_type == StowItemType::Directory {
                ActionType::Conflict
            } else {
                match resolution {
                    Some(k) => k,
                    None => {
                        if config.adopt && prepared.stow_item.item_type == StowItemType::File
                            && !obs.is_symlink {
                            ActionType::AdoptFile
                        } else {
                            ActionType::Conflict
                        }
                    },
                }
            };
            &&& a.action_type == kind
            &&& (kind == ActionType::CreateSymlink || kind == ActionType::AdoptFile || kind
                == ActionType::AdoptDirectory ==> a.link_target_path == Some(
                prepared.link_target,
            ))
            &&& (kind == ActionType::CreateDirectory || kind == ActionType::Skip || kind
                == ActionType::Conflict ==> a.link_target_path is None)
            &&& (kind == ActionType::Conflict ==> a.conflict_details is Some)
        }),
{
    let is_dir_item = matches!(prepared.stow_item.item_type, StowItemType::Directory);
    if obs.is_dir && !is_dir_item {
        return make_action(
            prepared,
            ActionType::Conflict,
            None,
            Some(String::from_str("Cannot place a symlink: target is a directory")),
        );
    }
    if !obs.is_dir && is_dir_item {
        return make_action(
            prepared,
            ActionType::Conflict,
            None,
            Some(String::from_str("Cannot create directory: target is a file")),
        );
    }
    let matcher = PatternMatcher::new(config);
    match matcher.check_patterns(prepared.target_path.as_str(), prepared.link_target.clone()) {
        Some((kind, message, link)) => make_action(prepared, kind, link, Some(message)),
        None => {
            if config.adopt && matches!(prepared.stow_item.item_type, StowItemType::File)
                && !obs.is_symlink {
                make_action(
                    prepared,
                    ActionType::AdoptFile,
                    Some(prepared.link_target.clone()),
                    None,
                )
            } else {
                make_action(
                    prepared,
                    ActionType::Conflict,
                    None,
                    Some(String::from_str("Target already exists and is not stow-managed")),
                )
            }
        },
    }
}

/// One planned action for a readied item.
fn make_action(
    prepared: &PreparedItem,
    kind: ActionType,
    link: Option<String>,
    details: Option<String>,
) -> (a: TargetAction)
    ensures
        a.source_item == Some(prepared.stow_item),
        a.target_path@ == prepared.target_path@,
        a.action_type == kind,
        a.link_target_path == link,
        a.conflict_details == details,
{
    TargetAction {
        source_item: Some(prepared.stow_item.clone()),
        target_path: prepared.target_path.clone(),
        link_target_path: link,
        action_type: kind,
        conflict_details: details,
    }
}

/// Whether some strict lexical ancestor of the target path, inside the
/// target root, is an existing non-directory or the target of an action
/// already marked as a conflict.
pub open spec fn spec_has_parent_conflict(
    t: Seq<char>,
    actions: Seq<TargetAction>,
    parent_files: Seq<Seq<char>>,
    target_root: Seq<char>,
) -> bool {
    let tc = path_components(t);
    let rootn = path_components(target_root).len() as int;
    exists|m: int|
        rootn < m < tc.len() && {
            let anc = #[trigger] tc.take(m);
            (exists|f: int|
                0 <= f < parent_files.len() && path_components(#[trigger] parent_files[f]) == anc)
                || spec_conflict_at(actions, anc)
        }
}

/// Marks every non-conflict action one of whose strict ancestors inside
/// the target root is an existing non-directory file, or the target of an
/// action already marked as a conflict, as a conflict itself.  The
/// `parent_files` list names the ancestor paths that exist on disk as
/// non-directories.  An action left unmarked has no such ancestor.
pub fn refine_actions_for_parent_conflicts(
    actions: &mut Vec<TargetAction>,
    parent_files: &Vec<String>,
    config: &Config,
)
    ensures
        final(actions)@.len() == old(actions)@.len(),
        forall|i: int|
            0 <= i < old(actions)@.len() ==> {
                let a0 = old(actions)@[i];
                let a1 = #[trigger] final(actions)@[i];
                if a0.action_type != ActionType::Conflict && spec_has_parent_conflict(
                    a0.target_path@,
                    old(actions)@,
                    parent_files.deep_view(),
                    config.target_dir@,
                ) {
                    &&& a1.action_type == ActionType::Conflict
                    &&& a1.target_path@ == a0.target_path@
                    &&& a1.source_item == a0.source_item
                    &&& a1.link_target_path is None
                    &&& a1.conflict_details is Some
                } else {
                    a1 == a0
                }
            },
        forall|i: int|
            0 <= i < final(actions)@.len() && (#[trigger] final(actions)@[i]).action_type
                != ActionType::Conflict ==> !spec_has_parent_conflict(
                final(actions)@[i].target_path@,
                old(actions)@,
                parent_files.deep_view(),
                config.target_dir@,
            ),
{
    let ghost orig = actions@;
    let ghost pf = parent_files.deep_view();
    let ghost root = config.target_dir@;
    let n = actions.len();
    let root_comps = crate::paths::split_path(config.target_dir.as_str());
    let mut hit: Vec<bool> = Vec::new();
    let mut i: usize = 0;
    while i < n
        invariant
            orig == actions@,
            pf == parent_files.deep_view(),
            pf.len() == parent_files.len(),
            root == config.target_dir@,
            root_comps.deep_view() == path_components(root),
            n == actions@.len(),
            0 <= i <= n,
            hit@.len() == i,
            forall|k: int|
                0 <= k < i ==> #[trigger] hit@[k] == (orig[k].action_type != ActionType::Conflict
                    && spec_has_parent_conflict(orig[k].target_path@, orig, pf, root)),
        decreases n - i,
    {
        let mut found: bool = false;
        if !matches!(actions[i].action_type, ActionType::Conflict) {
            let tc = crate::paths::split_path(actions[i].target_path.as_str());
            let ghost tcv = path_components(orig[i as int].target_path@);
            if root_comps.len() >= tc.len() {
                assert(!spec_has_parent_conflict(orig[i as int].target_path@, orig, pf, root));
            }
            let mut m: usize = if root_comps.len() < tc.len() {
                root_comps.len() + 1
            } else {
                tc.len()
            };
            while m < tc.len()
                invariant
                    orig == actions@,
                    pf == parent_files.deep_view(),
                    pf.len() == parent_files.len(),
                    root == config.target_dir@,
                    root_comps.deep_view() == path_components(root),
                    n == actions@.len(),
                    0 <= i < n,
                    tc.deep_view() == tcv,
                    tcv == path_components(orig[i as int].target_path@),
                    tc@.len() == tcv.len(),
                    root_comps@.len() < m || m == tc@.len(),
                    m <= tc@.len(),
                    found ==> spec_has_parent_conflict(orig[i as int].target_path@, orig, pf, root),
                    !found ==> forall|q: int|
                        path_components(root).len() < q < m ==> !((exists|f: int|
                            0 <= f < pf.len() && path_components(#[trigger] pf[f]) == tcv.take(q))
                            || spec_conflict_at(orig, #[trigger] tcv.take(q))),
                decreases tc.len() - m,
            {
                let mut anc: Vec<String> = Vec::new();
                let mut w: usize = 0;
                while w < m
                    invariant
                        tc.deep_view() == tcv,
                        tc@.len() == tcv.len(),
                        0 <= w <= m <= tcv.len(),
                        anc.deep_view() == tcv.take(w as int),
                    decreases m - w,
                {
                    let ghost before = anc.deep_view();
                    let elem = tc[w].clone();
                    assert(elem@ == tcv[w as int]);
                    anc.push(elem);
                    proof {
                        assert(anc.deep_view() =~= before.push(tcv[w as int]));
                        assert(before.push(tcv[w as int]) =~= tcv.take(w + 1int));
                    }
                    w += 1;
                }
                let mut file_hit: bool = false;
                let mut f: usize = 0;
                while f < parent_files.len()
                    invariant
                        pf == parent_files.deep_view(),
                        pf.len() == parent_files.len(),
                        anc.deep_view() == tcv.take(m as int),
                        0 <= f <= pf.len(),
                        file_hit ==> exists|q: int|
                            0 <= q < pf.len() && path_components(#[trigger] pf[q]) == tcv.take(
                                m as int,
                            ),
                        !file_hit ==> forall|q: int|
                            0 <= q < f ==> path_components(#[trigger] pf[q]) != tcv.take(m as int),
                    decreases pf.len() - f,
                {
                    let fc = crate::paths::split_path(parent_files[f].as_str());
                    if crate::paths::comps_eq(&fc, &anc) {
                        assert(path_components(pf[f as int]) == tcv.take(m as int));
                        file_hit = true;
                    }
                    f += 1;
                }
                let mut act_hit: bool = false;
                let mut j: usize = 0;
                while j < n
                    invariant
                        orig == actions@,
                        n == actions@.len(),
                        anc.deep_view() == tcv.take(m as int),
                        0 <= j <= n,
                        act_hit ==> spec_conflict_at(orig, tcv.take(m as int)),
                        !act_hit ==> forall|q: int|
                            0 <= q < j ==> !((#[trigger] orig[q]).action_type
                                == ActionType::Conflict && path_components(orig[q].target_path@)
                                == tcv.take(m as int)),
                    decreases n - j,
                {
                    if matches!(actions[j].action_type, ActionType::Conflict) {
                        let jc = crate::paths::split_path(actions[j].target_path.as_str());
                        if crate::paths::comps_eq(&jc, &anc) {
                            act_hit = true;
                        }
                    }
                    j += 1;
                }
                if file_hit || act_hit {
                    found = true;
                    assert(spec_has_parent_conflict(orig[i as int].target_path@, orig, pf, root));
                }
                m += 1;
            }
            proof {
                if !found {
                    assert(!spec_has_parent_conflict(orig[i as int].target_path@, orig, pf, root));
                }
            }
        }
        hit.push(found);
        i += 1;
    }
    let mut out: Vec<TargetAction> = Vec::new();
    let mut k: usize = 0;
    while k < n
        invariant
            orig == actions@,
            pf == parent_files.deep_view(),
            root == config.target_dir@,
            n == actions@.len(),
            hit@.len() == n,
            forall|q: int|
                0 <= q < n ==> #[trigger] hit@[q] == (orig[q].action_type != ActionType::Conflict
                    && spec_has_parent_conflict(orig[q].target_path@, orig, pf, root)),
            0 <= k <= n,
            out@.len() == k,
            forall|q: int|
                0 <= q < k ==> {
                    let a0 = orig[q];
                    let a1 = #[trigger] out@[q];
                    if a0.action_type != ActionType::Conflict && spec_has_parent_conflict(
                        a0.target_path@,
                        orig,
                        pf,
                        root,
                    ) {
                        &&& a1.action_type == ActionType::Conflict
                        &&& a1.target_path@ == a0.target_path@
                        &&& a1.source_item == a0.source_item
                        &&& a1.link_target_path is None
                        &&& a1.conflict_details is Some
                    } else {
                        a1 == a0
                    }
                },
        decreases n - k,
    {
        let a = actions[k].clone();
        if hit[k] {
            let marked = TargetAction {
                source_item: a.source_item,
                target_path: a.target_path,
                link_target_path: None,
                action_type: ActionType::Conflict,
                conflict_details: Some(
                    String::from_str("A parent of this target is a file or part of a conflict"),
                ),
            };
            out.push(marked);
        } else {
            out.push(a);
        }
        k += 1;
    }
    *actions = out;
}

/// What the binary around the library must do for one action.
#[derive(Debug)]
pub enum FsOp {
    /// Create the directory and its missing parents.
    CreateDirAll(String),
    /// Remove the symlink at the path.
    DeleteSymlinkAt(String),
    /// Create a symlink at `link` whose literal body is `target_value`.
    CreateSymlinkAt { link: String, target_value: String },
    /// Remove the empty directory at the path.
    DeleteEmptyDirAt(String),
    /// Move the entry at `from` to `to`, replacing what is there.
    MoveItem { from: String, to: String },
}

/// What execution observed at an action's target just before acting.
#[derive(Debug, Clone, Copy)]
pub struct ExecObservation {
    /// The target path resolves to something.
    pub exists: bool,
    /// The target path itself is a symlink.
    pub is_symlink: bool,
    /// The target's parent directory exists.
    pub parent_exists: bool,
    /// The target path resolves to a directory.
    pub is_dir: bool,
    /// The target is a directory with no entries.
    pub dir_empty: bool,
}

/// The decision for one action: the operations to perform, in order, and
/// the report to emit when they all succeed.
#[derive(Debug)]
pub struct ExecutionStep {
    /// The operations to perform, in order.
    pub ops: Vec<FsOp>,
    /// The report when every operation succeeds.
    pub report: TargetActionReport,
}

/// The report for an action in simulate mode: nothing is touched and the
/// action is reported as skipped.
pub fn execute_simulate_action(action: &TargetAction) -> (r: TargetActionReport)
    ensures
        r.original_action == *action,
        r.status is Skipped,
        r.message is Some,
{
    TargetActionReport {
        original_action: action.clone(),
        status: TargetActionReportStatus::Skipped,
        message: Some(String::from_str("SIMULATE: no change performed")),
    }
}

/// The report for a planned conflict: the operation is prevented and
/// nothing is touched.
pub fn execute_conflict_action(action: &TargetAction) -> (r: TargetActionReport)
    ensures
        r.original_action == *action,
        r.status is ConflictPrevented,
        r.message is Some,
{
    TargetActionReport {
        original_action: action.clone(),
        status: TargetActionReportStatus::ConflictPrevented,
        message: Some(String::from_str("CONFLICT: operation prevented for this target")),
    }
}

/// The report for a planned skip.
pub fn execute_skip_action(action: &TargetAction) -> (r: TargetActionReport)
    ensures
        r.original_action == *action,
        r.status is Skipped,
        r.message is Some,
{
    let message = match &action.conflict_details {
        Some(d) => d.clone(),
        None => String::from_str("Action skipped"),
    };
    TargetActionReport {
        original_action: action.clone(),
        status: TargetActionReportStatus::Skipped,
        message: Some(message),
    }
}

/// The report for an operation that failed on disk, with the failure's
/// description.
pub fn failure_report(action: &TargetAction, message: String) -> (r: TargetActionReport)
    ensures
        r.original_action == *action,
        r.status is Failure,
        r.message == Some(message),
{
    TargetActionReport {
        original_action: action.clone(),
        status: TargetActionReportStatus::Failure(message.clone()),
        message: Some(message),
    }
}

/// The shape of a report's status, without a failure's description.
pub ghost enum ExecStatusKind {
    Success,
    Skipped,
    ConflictPrevented,
    Failure,
}

/// The shape of a report status.
pub open spec fn spec_status_kind(s: TargetActionReportStatus) -> ExecStatusKind {
    match s {
        TargetActionReportStatus::Success => ExecStatusKind::Success,
        TargetActionReportStatus::Skipped => ExecStatusKind::Skipped,
        TargetActionReportStatus::ConflictPrevented => ExecStatusKind::ConflictPrevented,
        TargetActionReportStatus::Failure(_) => ExecStatusKind::Failure,
    }
}

/// The status the execution decision assigns to one action, as a
/// function of the action, the observation and simulate mode.
pub open spec fn spec_execution_status(
    action: TargetAction,
    obs: ExecObservation,
    simulate: bool,
) -> ExecStatusKind {
    if simulate {
        ExecStatusKind::Skipped
    } else {
        match action.action_type {
            ActionType::Conflict => ExecStatusKind::ConflictPrevented,
            ActionType::Skip => ExecStatusKind::Skipped,
            ActionType::CreateDirectory => ExecStatusKind::Success,
            ActionType::CreateSymlink => match action.link_target_path {
                None => ExecStatusKind::Failure,
                Some(_) => if obs.exists && !obs.is_symlink {
                    ExecStatusKind::Failure
                } else {
                    ExecStatusKind::Success
                },
            },
            ActionType::DeleteSymlink => if obs.is_symlink {
                ExecStatusKind::Success
            } else if !obs.exists {
                ExecStatusKind::Skipped
            } else {
                ExecStatusKind::Failure
            },
            ActionType::DeleteDirectory => if !obs.exists {
                ExecStatusKind::Skipped
            } else if obs.is_symlink || !obs.is_dir {
                ExecStatusKind::Failure
            } else if !obs.dir_empty {
                ExecStatusKind::Skipped
            } else {
                ExecStatusKind::Success
            },
            ActionType::AdoptFile | ActionType::AdoptDirectory => match (
                action.link_target_path,
                action.source_item,
            ) {
                (Some(_), Some(_)) => ExecStatusKind::Success,
                _ => ExecStatusKind::Failure,
            },
        }
    }
}

/// Decides what one action performs, given what execution observed at
/// its target.  In simulate mode nothing is performed and the action is
/// reported as skipped; a conflict performs nothing and is reported as
/// prevented; otherwise the operations realize the action: directories
/// are created in place, a symlink creation clears an existing symlink
/// (and only a symlink) first, deletions of absent targets and of
/// non-empty directories are skipped, and adoption moves the target into
/// the package before linking.
pub fn decide_execution(action: &TargetAction, obs: &ExecObservation, simulate: bool) -> (r:
    ExecutionStep)
    ensures
        r.report.original_action == *action,
        spec_status_kind(r.report.status) == spec_execution_status(*action, *obs, simulate),
        simulate ==> r.ops@.len() == 0 && r.report.status is Skipped,
        !simulate ==> ({
            match action.action_type {
                ActionType::Conflict => r.ops@.len() == 0 && r.report.status
                    is ConflictPrevented,
                ActionType::Skip => r.ops@.len() == 0 && r.report.status is Skipped,
                ActionType::CreateDirectory => {
                    &&& r.report.status is Success
                    &&& r.ops@.len() == 1
                    &&& (r.ops@[0] matches FsOp::CreateDirAll(p) && p@ == action.target_path@)
                },
                ActionType::CreateSymlink => match action.link_target_path {
                    None => r.ops@.len() == 0 && r.report.status is Failure,
                    Some(ref l) => {
                        if obs.exists && !obs.is_symlink {
                            &&& r.report.status is Failure
                            &&& r.ops@.len() == 0
                        } else {
                            &&& r.report.status is Success
                            &&& r.ops@.len() == (if obs.parent_exists { 0int } else { 1int }) + (
                            if obs.exists { 1int } else { 0int }) + 1
                            &&& (!obs.parent_exists ==> (r.ops@[0] matches FsOp::CreateDirAll(p)
                                && p@ == crate::paths::join_abs(
                                spec_parent_comps(action.target_path@),
                            )))
                            &&& (obs.exists ==> (r.ops@[r.ops@.len() - 2] matches
                                FsOp::DeleteSymlinkAt(t) && t@ == action.target_path@))
                            &&& (r.ops@.last() matches FsOp::CreateSymlinkAt {
                                link,
                                target_value,
                            } && link@ == action.target_path@ && target_value@ == l@)
                        }
                    },
                },
                ActionType::DeleteSymlink => {
                    if obs.is_symlink {
                        &&& r.report.status is Success
                        &&& r.ops@.len() == 1
                        &&& (r.ops@[0] matches FsOp::DeleteSymlinkAt(t) && t@
                            == action.target_path@)
                    } else if !obs.exists {
                        r.ops@.len() == 0 && r.report.status is Skipped
                    } else {
                        r.ops@.len() == 0 && r.report.status is Failure
                    }
                },
                ActionType::DeleteDirectory => {
                    if !obs.exists {
                        r.ops@.len() == 0 && r.report.status is Skipped
                    } else if obs.is_symlink || !obs.is_dir {
                        r.ops@.len() == 0 && r.report.status is Failure
                    } else if !obs.dir_empty {
                        r.ops@.len() == 0 && r.report.status is Skipped
                    } else {
                        &&& r.report.status is Success
                        &&& r.ops@.len() == 1
                        &&& (r.ops@[0] matches FsOp::DeleteEmptyDirAt(t) && t@
                            == action.target_path@)
                    }
                },
                ActionType::AdoptFile | ActionType::AdoptDirectory => {
                    match (action.link_target_path, action.source_item) {
                        (Some(ref l), Some(ref it)) => {
                            &&& r.report.status is Success
                            &&& r.ops@.len() == 2
                            &&& (r.ops@[0] matches FsOp::MoveItem { from, to } && from@
                                == action.target_path@ && to@ == it.source_path@)
                            &&& (r.ops@[1] matches FsOp::CreateSymlinkAt {
                                link,
                                target_value,
                            } && link@ == action.target_path@ && target_value@ == l@)
                        },
                        _ => r.ops@.len() == 0 && r.report.status is Failure,
                    }
                },
            }
        }),
{
    if simulate {
        return ExecutionStep { ops: Vec::new(), report: execute_simulate_action(action) };
    }
    match action.action_type {
        ActionType::Conflict => ExecutionStep {
            ops: Vec::new(),
            report: execute_conflict_action(action),
        },
        ActionType::Skip => ExecutionStep { ops: Vec::new(), report: execute_skip_action(action) },
        ActionType::CreateDirectory => {
            let mut ops: Vec<FsOp> = Vec::new();
            ops.push(FsOp::CreateDirAll(action.target_path.clone()));
            ExecutionStep {
                ops,
                report: TargetActionReport {
                    original_action: action.clone(),
                    status: TargetActionReportStatus::Success,
                    message: Some(String::from_str("Directory created")),
                },
            }
        },
        ActionType::CreateSymlink => decide_create_symlink(action, obs),
        ActionType::DeleteSymlink => {
            if obs.is_symlink {
                let mut ops: Vec<FsOp> = Vec::new();
                ops.push(FsOp::DeleteSymlinkAt(action.target_path.clone()));
                ExecutionStep {
                    ops,
                    report: TargetActionReport {
                        original_action: action.clone(),
                        status: TargetActionReportStatus::Success,
                        message: Some(String::from_str("Symlink deleted")),
                    },
                }
            } else if !obs.exists {
                ExecutionStep {
                    ops: Vec::new(),
                    report: TargetActionReport {
                        original_action: action.clone(),
                        status: TargetActionReportStatus::Skipped,
                        message: Some(String::from_str("Symlink already absent")),
                    },
                }
            } else {
                ExecutionStep {
                    ops: Vec::new(),
                    report: failure_report(
                        action,
                        String::from_str("Target exists but is not a symlink"),
                    ),
                }
            }
        },
        ActionType::DeleteDirectory => {
            if !obs.exists {
                ExecutionStep {
                    ops: Vec::new(),
                    report: TargetActionReport {
                        original_action: action.clone(),
                        status: TargetActionReportStatus::Skipped,
                        message: Some(String::from_str("Directory does not exist")),
                    },
                }
            } else if obs.is_symlink || !obs.is_dir {
                ExecutionStep {
                    ops: Vec::new(),
                    report: failure_report(
                        action,
                        String::from_str("Target is not a directory"),
                    ),
                }
            } else if !obs.dir_empty {
                ExecutionStep {
                    ops: Vec::new(),
                    report: TargetActionReport {
                        original_action: action.clone(),
                        status: TargetActionReportStatus::Skipped,
                        message: Some(String::from_str("Directory not empty")),
                    },
                }
            } else {
                let mut ops: Vec<FsOp> = Vec::new();
                ops.push(FsOp::DeleteEmptyDirAt(action.target_path.clone()));
                ExecutionStep {
                    ops,
                    report: TargetActionReport {
                        original_action: action.clone(),
                        status: TargetActionReportStatus::Success,
                        message: Some(String::from_str("Empty directory deleted")),
                    },
                }
            }
        },
        ActionType::AdoptFile | ActionType::AdoptDirectory => {
            let link = match &action.link_target_path {
                Some(l) => l.clone(),
                None => {
                    return ExecutionStep {
                        ops: Vec::new(),
                        report: failure_report(
                            action,
                            String::from_str("Adoption is missing its link value"),
                        ),
                    };
                },
            };
            let source = match &action.source_item {
                Some(it) => it.source_path.clone(),
                None => {
                    return ExecutionStep {
                        ops: Vec::new(),
                        report: failure_report(
                            action,
                            String::from_str("Adoption is missing its source item"),
                        ),
                    };
                },
            };
            let mut ops: Vec<FsOp> = Vec::new();
            ops.push(FsOp::MoveItem { from: action.target_path.clone(), to: source });
            ops.push(
                FsOp::CreateSymlinkAt { link: action.target_path.clone(), target_value: link },
            );
            ExecutionStep {
                ops,
                report: TargetActionReport {
                    original_action: action.clone(),
                    status: TargetActionReportStatus::Success,
                    message: Some(String::from_str("Target adopted into the package")),
                },
            }
        },
    }
}

/// The operations that realize a symlink creation: ensure the parent
/// directory, clear an existing symlink, refuse any other occupant, then
/// create the link.
fn decide_create_symlink(action: &TargetAction, obs: &ExecObservation) -> (r: ExecutionStep)
    requires
        action.action_type == ActionType::CreateSymlink,
    ensures
        r.report.original_action == *action,
        match action.link_target_path {
            None => r.ops@.len() == 0 && r.report.status is Failure,
            Some(ref l) => {
                if obs.exists && !obs.is_symlink {
                    &&& r.report.status is Failure
                    &&& r.ops@.len() == 0
                } else {
                    &&& r.report.status is Success
                    &&& r.ops@.len() == (if obs.parent_exists { 0int } else { 1int }) + (
                    if obs.exists { 1int } else { 0int }) + 1
                    &&& (!obs.parent_exists ==> (r.ops@[0] matches FsOp::CreateDirAll(p) && p@
                        == crate::paths::join_abs(spec_parent_comps(action.target_path@))))
                    &&& (obs.exists ==> (r.ops@[r.ops@.len() - 2] matches FsOp::DeleteSymlinkAt(t)
                        && t@ == action.target_path@))
                    &&& (r.ops@.last() matches FsOp::CreateSymlinkAt { link, target_value }
                        && link@ == action.target_path@ && target_value@ == l@)
                }
            },
        },
{
    let link_value = match &action.link_target_path {
        Some(l) => l.clone(),
        None => {
            return ExecutionStep {
                ops: Vec::new(),
                report: failure_report(
                    action,
                    String::from_str("Symlink creation is missing its link value"),
                ),
            };
        },
    };
    if obs.exists && !obs.is_symlink {
        return ExecutionStep {
            ops: Vec::new(),
            report: failure_report(
                action,
                String::from_str("Cannot override a target that is not a symlink"),
            ),
        };
    }
    let mut ops: Vec<FsOp> = Vec::new();
    if !obs.parent_exists {
        let mut parent_comps = crate::paths::split_path(action.target_path.as_str());
        if parent_comps.len() > 0 {
            parent_comps.pop();
        }
        assert(parent_comps.deep_view() =~= spec_parent_comps(action.target_path@));
        let parent = crate::paths::join_abs_path(&parent_comps);
        ops.push(FsOp::CreateDirAll(parent));
    }
    if obs.exists {
        ops.push(FsOp::DeleteSymlinkAt(action.target_path.clone()));
    }
    ops.push(
        FsOp::CreateSymlinkAt {
            link: action.target_path.clone(),
            target_value: link_value,
        },
    );
    ExecutionStep {
        ops,
        report: TargetActionReport {
            original_action: action.clone(),
            status: TargetActionReportStatus::Success,
            message: Some(String::from_str("Symlink created")),
        },
    }
}

/// A planned deletion of one symlink found in the target.
pub fn create_delete_symlink_action(target_path: String) -> (a: TargetAction)
    ensures
        a.source_item is None,
        a.target_path == target_path,
        a.link_target_path is None,
        a.action_type == ActionType::DeleteSymlink,
        a.conflict_details is None,
{
    TargetAction {
        source_item: None,
        target_path,
        link_target_path: None,
        action_type: ActionType::DeleteSymlink,
        conflict_details: None,
    }
}

/// A planned deletion of one directory in the target, attempted only if
/// it turns out empty.
pub fn create_delete_directory_action(target_path: String) -> (a: TargetAction)
    ensures
        a.source_item is None,
        a.target_path == target_path,
        a.link_target_path is None,
        a.action_type == ActionType::DeleteDirectory,
        a.conflict_details is None,
{
    TargetAction {
        source_item: None,
        target_path,
        link_target_path: None,
        action_type: ActionType::DeleteDirectory,
        conflict_details: None,
    }
}

/// The delete planner's decision for one item against the observed state
/// of its target: a missing target is skipped, a directory item asks for
/// a speculative directory deletion, and a file item's symlink is deleted
/// only when it is stow-managed and names this very package and item.
pub open spec fn spec_delete_decision(
    ty: StowItemType,
    exists: bool,
    is_symlink: bool,
    same: bool,
) -> ActionType {
    if !exists {
        ActionType::Skip
    } else if ty == StowItemType::Directory {
        ActionType::DeleteDirectory
    } else if !is_symlink {
        ActionType::Skip
    } else if same {
        ActionType::DeleteSymlink
    } else {
        ActionType::Skip
    }
}

/// Plans the delete action for one readied item against the observed
/// state of its target path.
pub fn plan_delete_action_for_item(
    prepared: &PreparedItem,
    obs: &crate::fs_utils::TargetObservation,
    config: &Config,
) -> (a: TargetAction)
    requires
        obs.wf(),
    ensures
        a.source_item == Some(prepared.stow_item),
        a.target_path@ == prepared.target_path@,
        a.link_target_path is None,
        ({
            let classify = spec_obs_classify(prepared.target_path@, *obs, config.stow_dir@);
            let same = spec_same_package_and_item(
                classify,
                prepared.stow_item.package_relative_path@,
                prepared.package_name@,
            );
            a.action_type == spec_delete_decision(
                prepared.stow_item.item_type,
                obs.exists,
                obs.is_symlink,
                same,
            )
        }),
{
    if !obs.exists {
        return TargetAction {
            source_item: Some(prepared.stow_item.clone()),
            target_path: prepared.target_path.clone(),
            link_target_path: None,
            action_type: ActionType::Skip,
            conflict_details: Some(
                String::from_str("Target does not exist, nothing to delete"),
            ),
        };
    }
    if matches!(prepared.stow_item.item_type, StowItemType::Directory) {
        return TargetAction {
            source_item: Some(prepared.stow_item.clone()),
            target_path: prepared.target_path.clone(),
            link_target_path: None,
            action_type: ActionType::DeleteDirectory,
            conflict_details: None,
        };
    }
    if !obs.is_symlink {
        return TargetAction {
            source_item: Some(prepared.stow_item.clone()),
            target_path: prepared.target_path.clone(),
            link_target_path: None,
            action_type: ActionType::Skip,
            conflict_details: Some(String::from_str("Target exists but is not a symlink")),
        };
    }
    let body: Option<&str> = match &obs.link_body {
        Some(b) => Some(b.as_str()),
        None => None,
    };
    let classified = crate::fs_utils::is_stow_symlink(
        prepared.target_path.as_str(),
        body,
        config.stow_dir.as_str(),
    );
    match classified {
        Some((existing_package, existing_item)) => {
            if is_same_package_and_item(
                existing_package.as_str(),
                existing_item.as_str(),
                &prepared.stow_item,
                prepared.package_name.as_str(),
            ) {
                TargetAction {
                    source_item: Some(prepared.stow_item.clone()),
                    target_path: prepared.target_path.clone(),
                    link_target_path: None,
                    action_type: ActionType::DeleteSymlink,
                    conflict_details: None,
                }
            } else {
                TargetAction {
                    source_item: Some(prepared.stow_item.clone()),
                    target_path: prepared.target_path.clone(),
                    link_target_path: None,
                    action_type: ActionType::Skip,
                    conflict_details: Some(
                        String::from_str("Symlink belongs to a different package or item"),
                    ),
                }
            }
        },
        None => TargetAction {
            source_item: Some(prepared.stow_item.clone()),
            target_path: prepared.target_path.clone(),
            link_target_path: None,
            action_type: ActionType::Skip,
            conflict_details: Some(
                String::from_str("Target is not a stow-managed symlink"),
            ),
        },
    }
}

/// One entry of a walk of the target tree, as observed for restow's
/// deletion phase.  The walk lists a directory's entries before the
/// directory itself and does not descend through symlinks.
#[derive(Debug)]
pub struct TargetWalkEntry {
    /// Absolute path of the entry.
    pub path: String,
    /// The entry itself is a symlink.
    pub is_symlink: bool,
    /// The literal link body, when the entry is a symlink.
    pub link_body: Option<String>,
    /// The entry is a real directory.
    pub is_dir: bool,
}

/// Whether a walked symlink resolves, lexically, to somewhere inside the
/// package's directory under the stow root.
pub open spec fn spec_entry_under_package(
    e: TargetWalkEntry,
    stow_dir: Seq<char>,
    package_name: Seq<char>,
) -> bool {
    match e.link_body {
        Some(ref b) => {
            let resolved = crate::fs_utils::spec_resolved_link(e.path@, b@);
            let pkg = path_components(stow_dir).push(package_name);
            pkg.len() <= resolved.len() && resolved.take(pkg.len() as int) == pkg
        },
        None => false,
    }
}

/// The deletions restow derives from the installed state alone: every
/// walked symlink that resolves into the package is deleted, and every
/// walked directory gets a speculative deletion; nothing here reads the
/// package's current contents.
pub open spec fn spec_restow_deletes(
    entries: Seq<TargetWalkEntry>,
    stow_dir: Seq<char>,
    package_name: Seq<char>,
) -> Seq<TargetAction>
    decreases entries.len(),
{
    if entries.len() == 0 {
        Seq::<TargetAction>::empty()
    } else {
        let prev = spec_restow_deletes(entries.drop_last(), stow_dir, package_name);
        let e = entries.last();
        if e.is_symlink && spec_entry_under_package(e, stow_dir, package_name) {
            prev.push(
                TargetAction {
                    source_item: None,
                    target_path: e.path,
                    link_target_path: None,
                    action_type: ActionType::DeleteSymlink,
                    conflict_details: None,
                },
            )
        } else if !e.is_symlink && e.is_dir {
            prev.push(
                TargetAction {
                    source_item: None,
                    target_path: e.path,
                    link_target_path: None,
                    action_type: ActionType::DeleteDirectory,
                    conflict_details: None,
                },
            )
        } else {
            prev
        }
    }
}

/// Collects the deletions for one package from a walk of the target
/// tree: symlink deletions for links resolving into the package, and
/// speculative directory deletions.  Only the installed state drives
/// this; the package's current contents play no part.
pub fn collect_stow_symlinks_for_package(
    entries: &Vec<TargetWalkEntry>,
    package_name: &str,
    config: &Config,
) -> (r: Vec<TargetAction>)
    ensures
        r@ == spec_restow_deletes(entries@, config.stow_dir@, package_name@),
{
    let ghost ev = entries@;
    let mut pkg_comps = crate::paths::split_path(config.stow_dir.as_str());
    pkg_comps.push(package_name.to_owned());
    assert(pkg_comps.deep_view() =~= path_components(config.stow_dir@).push(package_name@));
    let mut out: Vec<TargetAction> = Vec::new();
    let mut i: usize = 0;
    while i < entries.len()
        invariant
            ev == entries@,
            ev.len() == entries.len(),
            pkg_comps.deep_view() == path_components(config.stow_dir@).push(package_name@),
            0 <= i <= entries.len(),
            out@ == spec_restow_deletes(ev.take(i as int), config.stow_dir@, package_name@),
        decreases entries.len() - i,
    {
        let ghost pre = ev.take(i as int);
        let ghost post = ev.take(i + 1int);
        proof {
            assert(post.drop_last() =~= pre);
            assert(post.last() == ev[i as int]);
        }
        let e = &entries[i];
        if e.is_symlink {
            let mut under: bool = false;
            if let Some(b) = &e.link_body {
                let body_comps = crate::paths::split_path(b.as_str());
                let resolved: Vec<String>;
                if crate::paths::path_is_absolute(b.as_str()) {
                    resolved = crate::paths::normalize_comps(&body_comps);
                } else {
                    let mut link_comps = crate::paths::split_path(e.path.as_str());
                    let ghost lcs = path_components(e.path@);
                    let ghost parent = if lcs.len() > 0 {
                        lcs.drop_last()
                    } else {
                        lcs
                    };
                    if link_comps.len() > 0 {
                        link_comps.pop();
                    }
                    assert(link_comps.deep_view() =~= parent);
                    let mut joined = link_comps;
                    let ghost bcs = path_components(b@);
                    let mut bi: usize = 0;
                    while bi < body_comps.len()
                        invariant
                            bcs == body_comps.deep_view(),
                            bcs.len() == body_comps.len(),
                            0 <= bi <= body_comps.len(),
                            joined.deep_view() == parent + bcs.take(bi as int),
                        decreases body_comps.len() - bi,
                    {
                        let ghost before = joined.deep_view();
                        let elem = body_comps[bi].clone();
                        assert(elem@ == bcs[bi as int]);
                        joined.push(elem);
                        proof {
                            assert(joined.deep_view() =~= before.push(bcs[bi as int]));
                            assert(before.push(bcs[bi as int]) =~= parent + bcs.take(bi + 1int));
                        }
                        bi += 1;
                    }
                    assert(joined.deep_view() =~= parent + bcs);
                    resolved = crate::paths::normalize_comps(&joined);
                }
                under = crate::paths::comps_have_prefix(&resolved, &pkg_comps);
            }
            if under {
                let ghost before = out@;
                let act = create_delete_symlink_action(e.path.clone());
                proof {
                    assert(spec_entry_under_package(
                        ev[i as int],
                        config.stow_dir@,
                        package_name@,
                    ));
                }
                out.push(act);
                assert(out@ =~= spec_restow_deletes(post, config.stow_dir@, package_name@));
            } else {
                proof {
                    assert(!spec_entry_under_package(
                        ev[i as int],
                        config.stow_dir@,
                        package_name@,
                    ));
                }
                assert(out@ =~= spec_restow_deletes(post, config.stow_dir@, package_name@));
            }
        } else if e.is_dir {
            let act = create_delete_directory_action(e.path.clone());
            out.push(act);
            assert(out@ =~= spec_restow_deletes(post, config.stow_dir@, package_name@));
        } else {
            assert(out@ =~= spec_restow_deletes(post, config.stow_dir@, package_name@));
        }
        i += 1;
    }
    assert(ev.take(entries.len() as int) =~= ev);
    out
}

/// Plans restow's deletion phase for one package from a walk of the
/// target tree: the collected deletions, with symlink deletions ordered
/// before directory deletions.  The plan is a function of the installed
/// links alone, never of the package's current contents, so an item
/// removed from the package since the last stow is still unlinked.
pub fn plan_restow_delete_actions(
    package_name: &str,
    config: &Config,
    entries: &Vec<TargetWalkEntry>,
) -> (r: Vec<TargetAction>)
    ensures
        ({
            let deletes = spec_restow_deletes(entries@, config.stow_dir@, package_name@);
            r@ == spec_symlink_deletes(deletes) + spec_non_symlink_deletes(deletes)
        }),
{
    let mut actions = collect_stow_symlinks_for_package(entries, package_name, config);
    sort_deletion_actions(&mut actions);
    actions
}

/// Normalizes a path string lexically: `.` dropped and `..` collapsed
/// against the component before it, keeping the absolute or relative
/// form.
pub fn normalize_path_components(path: &str) -> (r: String)
    ensures
        r@ == if crate::paths::is_abs_path(path@) {
            crate::paths::join_abs(crate::paths::norm_comps(path_components(path@)))
        } else {
            crate::paths::join_rel(crate::paths::norm_comps(path_components(path@)))
        },
{
    let comps = crate::paths::split_path(path);
    let normd = crate::paths::normalize_comps(&comps);
    if crate::paths::path_is_absolute(path) {
        crate::paths::join_abs_path(&normd)
    } else {
        crate::paths::join_rel_path(&normd)
    }
}

/// Whether an already-resolved link target lies, lexically, inside the
/// package's directory: its normalized components extend the package
/// path's components.
pub fn should_delete_symlink(resolved_target: &str, canonical_package_path: &str) -> (r: bool)
    ensures
        r == ({
            let resolved = crate::paths::norm_comps(path_components(resolved_target@));
            let pkg = path_components(canonical_package_path@);
            pkg.len() <= resolved.len() && resolved.take(pkg.len() as int) == pkg
        }),
{
    let comps = crate::paths::split_path(resolved_target);
    let normd = crate::paths::normalize_comps(&comps);
    let pkg = crate::paths::split_path(canonical_package_path);
    crate::paths::comps_have_prefix(&normd, &pkg)
}

/// Stowing is idempotent at the planner's level: replanning an item over
/// the very link a first run created yields a skip, never a second
/// mutation.  The hypotheses spell the readied item, the link value and
/// the stow root from components, as the planner builds them, and let
/// the observation show exactly that link installed at the target.
pub proof fn lemma_stow_replan_skips(
    prepared: PreparedItem,
    obs: crate::fs_utils::TargetObservation,
    config: Config,
    stow_comps: Seq<Seq<char>>,
    pkg: Seq<char>,
    rel_comps: Seq<Seq<char>>,
    target_comps: Seq<Seq<char>>,
    link_comps: Seq<Seq<char>>,
    resolution: Option<ActionType>,
    has_non_stow: bool,
)
    requires
        crate::paths::plain_comps(stow_comps),
        crate::paths::plain_seg(pkg),
        crate::paths::plain_comps(target_comps),
        target_comps.len() > 0,
        crate::paths::sep_free(link_comps),
        link_comps.len() > 0 ==> link_comps[0][0] != '/',
        config.stow_dir@ == crate::paths::join_abs(stow_comps),
        prepared.package_name@ == pkg,
        prepared.stow_item.item_type != StowItemType::Directory,
        prepared.stow_item.package_relative_path@ == crate::paths::join_rel(rel_comps),
        prepared.target_path@ == crate::paths::join_abs(target_comps),
        prepared.link_target@ == crate::paths::join_rel(link_comps),
        crate::paths::norm_comps(target_comps.drop_last() + link_comps) == stow_comps + seq![pkg]
            + rel_comps,
        obs.exists,
        !obs.is_dir,
        obs.is_symlink,
        obs.link_body matches Some(b) && b@ == prepared.link_target@,
    ensures
        ({
            let classify = spec_obs_classify(prepared.target_path@, obs, config.stow_dir@);
            let same = spec_same_package_and_item(
                classify,
                prepared.stow_item.package_relative_path@,
                prepared.package_name@,
            );
            spec_stow_decision(
                prepared.stow_item.item_type,
                obs.exists,
                obs.is_dir,
                obs.is_symlink,
                classify,
                same,
                resolution,
                config.adopt,
                has_non_stow,
            ) == ActionType::Skip
        }),
{
    crate::fs_utils::lemma_own_link_classifies_home(
        stow_comps,
        pkg,
        rel_comps,
        target_comps,
        link_comps,
    );
    let classify = spec_obs_classify(prepared.target_path@, obs, config.stow_dir@);
    assert(classify == Some((pkg, rel_comps)));
    assert(spec_same_package_and_item(
        classify,
        prepared.stow_item.package_relative_path@,
        prepared.package_name@,
    ));
}

/// Deleting is the inverse of stowing at the planner's level: replanning
/// an item for deletion over the very link a stow run created yields
/// exactly the deletion of that link.
pub proof fn lemma_delete_replans_own_link(
    prepared: PreparedItem,
    obs: crate::fs_utils::TargetObservation,
    config: Config,
    stow_comps: Seq<Seq<char>>,
    pkg: Seq<char>,
    rel_comps: Seq<Seq<char>>,
    target_comps: Seq<Seq<char>>,
    link_comps: Seq<Seq<char>>,
)
    requires
        crate::paths::plain_comps(stow_comps),
        crate::paths::plain_seg(pkg),
        crate::paths::plain_comps(target_comps),
        target_comps.len() > 0,
        crate::paths::sep_free(link_comps),
        link_comps.len() > 0 ==> link_comps[0][0] != '/',
        config.stow_dir@ == crate::paths::join_abs(stow_comps),
        prepared.package_name@ == pkg,
        prepared.stow_item.item_type != StowItemType::Directory,
        prepared.stow_item.package_relative_path@ == crate::paths::join_rel(rel_comps),
        prepared.target_path@ == crate::paths::join_abs(target_comps),
        prepared.link_target@ == crate::paths::join_rel(link_comps),
        crate::paths::norm_comps(target_comps.drop_last() + link_comps) == stow_comps + seq![pkg]
            + rel_comps,
        obs.exists,
        obs.is_symlink,
        obs.link_body matches Some(b) && b@ == prepared.link_target@,
    ensures
        ({
            let classify = spec_obs_classify(prepared.target_path@, obs, config.stow_dir@);
            let same = spec_same_package_and_item(
                classify,
                prepared.stow_item.package_relative_path@,
                prepared.package_name@,
            );
            spec_delete_decision(prepared.stow_item.item_type, obs.exists, obs.is_symlink, same)
                == ActionType::DeleteSymlink
        }),
{
    crate::fs_utils::lemma_own_link_classifies_home(
        stow_comps,
        pkg,
        rel_comps,
        target_comps,
        link_comps,
    );
    let classify = spec_obs_classify(prepared.target_path@, obs, config.stow_dir@);
    assert(classify == Some((pkg, rel_comps)));
}

/// Restow's deletion phase, driven by the installed links alone, removes
/// a link that a stow run created, whether or not the item still stands
/// in the package.
pub proof fn lemma_restow_unlinks_own_link(
    entry: TargetWalkEntry,
    config: Config,
    stow_comps: Seq<Seq<char>>,
    pkg: Seq<char>,
    rel_comps: Seq<Seq<char>>,
    target_comps: Seq<Seq<char>>,
    link_comps: Seq<Seq<char>>,
)
    requires
        crate::paths::plain_comps(stow_comps),
        crate::paths::plain_seg(pkg),
        crate::paths::plain_comps(target_comps),
        target_comps.len() > 0,
        crate::paths::sep_free(link_comps),
        link_comps.len() > 0 ==> link_comps[0][0] != '/',
        config.stow_dir@ == crate::paths::join_abs(stow_comps),
        entry.path@ == crate::paths::join_abs(target_comps),
        entry.is_symlink,
        entry.link_body matches Some(b) && b@ == crate::paths::join_rel(link_comps),
        crate::paths::norm_comps(target_comps.drop_last() + link_comps) == stow_comps + seq![pkg]
            + rel_comps,
    ensures
        spec_entry_under_package(entry, config.stow_dir@, pkg),
        spec_restow_deletes(seq![entry], config.stow_dir@, pkg) == seq![
            TargetAction {
                source_item: None,
                target_path: entry.path,
                link_target_path: None,
                action_type: ActionType::DeleteSymlink,
                conflict_details: None,
            },
        ],
{
    let b = entry.link_body->0;
    assert(crate::paths::sep_free(target_comps)) by {
        assert(forall|i: int|
            0 <= i < target_comps.len() ==> crate::paths::plain_seg(#[trigger] target_comps[i]));
    }
    assert(crate::paths::sep_free(stow_comps)) by {
        assert(forall|i: int|
            0 <= i < stow_comps.len() ==> crate::paths::plain_seg(#[trigger] stow_comps[i]));
    }
    crate::paths::lemma_components_of_join_abs(target_comps);
    crate::paths::lemma_components_of_join_abs(stow_comps);
    crate::paths::lemma_components_of_join_rel(link_comps);
    assert(!crate::paths::is_abs_path(b@)) by {
        if link_comps.len() == 0 {
            assert(b@.len() == 0);
        } else {
            crate::paths::lemma_join_rel_first_char(link_comps);
        }
    }
    let resolved = crate::fs_utils::spec_resolved_link(entry.path@, b@);
    assert(resolved == crate::paths::norm_comps(target_comps.drop_last() + link_comps));
    let pkg_comps = path_components(config.stow_dir@).push(pkg);
    let whole = stow_comps + seq![pkg] + rel_comps;
    assert(whole.take(pkg_comps.len() as int) =~= pkg_comps);
    assert(spec_restow_deletes(seq![entry], config.stow_dir@, pkg) =~= seq![
        TargetAction {
            source_item: None,
            target_path: entry.path,
            link_target_path: None,
            action_type: ActionType::DeleteSymlink,
            conflict_details: None,
        },
    ]) by {
        reveal_with_fuel(spec_restow_deletes, 3);
        assert(seq![entry].drop_last() =~= Seq::<TargetWalkEntry>::empty());
        assert(seq![entry].last() == entry);
    }
}

/// Plans the stow actions for a package's readied items, one against
/// each observed target state, in order.
pub fn plan_actions(
    prepared: &Vec<PreparedItem>,
    observations: &Vec<crate::fs_utils::TargetObservation>,
    config: &Config,
) -> (r: Vec<TargetAction>)
    requires
        prepared@.len() == observations@.len(),
        forall|i: int| 0 <= i < observations@.len() ==> (#[trigger] observations@[i]).wf(),
    ensures
        r@.len() == prepared@.len(),
        forall|i: int|
            0 <= i < r@.len() ==> {
                let p = prepared@[i];
                let obs = observations@[i];
                let a = #[trigger] r@[i];
                let classify = spec_obs_classify(p.target_path@, obs, config.stow_dir@);
                let same = spec_same_package_and_item(
                    classify,
                    p.stow_item.package_relative_path@,
                    p.package_name@,
                );
                let resolution = spec_obs_resolution(
                    p.target_path@,
                    config.defers.deep_view(),
                    config.overrides.deep_view(),
                    config.target_dir@,
                );
                let kind = spec_stow_decision(
                    p.stow_item.item_type,
                    obs.exists,
                    obs.is_dir,
                    obs.is_symlink,
                    classify,
                    same,
                    resolution,
                    config.adopt,
                    spec_has_non_stow_entry(obs.entries@, config.stow_dir@),
                );
                &&& a.source_item == Some(p.stow_item)
                &&& a.target_path@ == p.target_path@
                &&& a.action_type == kind
                &&& (kind == ActionType::CreateSymlink || kind == ActionType::AdoptFile || kind
                    == ActionType::AdoptDirectory ==> a.link_target_path == Some(p.link_target))
                &&& (kind == ActionType::CreateDirectory || kind == ActionType::Skip || kind
                    == ActionType::Conflict ==> a.link_target_path is None)
                &&& (kind == ActionType::Conflict ==> a.conflict_details is Some)
            },
{
    let mut out: Vec<TargetAction> = Vec::new();
    let mut i: usize = 0;
    while i < prepared.len()
        invariant
            prepared@.len() == observations@.len(),
            forall|q: int| 0 <= q < observations@.len() ==> (#[trigger] observations@[q]).wf(),
            0 <= i <= prepared@.len(),
            out@.len() == i,
            forall|q: int|
                0 <= q < i ==> {
                    let p = prepared@[q];
                    let obs = observations@[q];
                    let a = #[trigger] out@[q];
                    let classify = spec_obs_classify(p.target_path@, obs, config.stow_dir@);
                    let same = spec_same_package_and_item(
                        classify,
                        p.stow_item.package_relative_path@,
                        p.package_name@,
                    );
                    let resolution = spec_obs_resolution(
                        p.target_path@,
                        config.defers.deep_view(),
                        config.overrides.deep_view(),
                        config.target_dir@,
                    );
                    let kind = spec_stow_decision(
                        p.stow_item.item_type,
                        obs.exists,
                        obs.is_dir,
                        obs.is_symlink,
                        classify,
                        same,
                        resolution,
                        config.adopt,
                        spec_has_non_stow_entry(obs.entries@, config.stow_dir@),
                    );
                    &&& a.source_item == Some(p.stow_item)
                    &&& a.target_path@ == p.target_path@
                    &&& a.action_type == kind
                    &&& (kind == ActionType::CreateSymlink || kind == ActionType::AdoptFile
                        || kind == ActionType::AdoptDirectory ==> a.link_target_path == Some(
                        p.link_target,
                    ))
                    &&& (kind == ActionType::CreateDirectory || kind == ActionType::Skip || kind
                        == ActionType::Conflict ==> a.link_target_path is None)
                    &&& (kind == ActionType::Conflict ==> a.conflict_details is Some)
                },
        decreases prepared@.len() - i,
    {
        let a = plan_stow_action_for_item(&prepared[i], &observations[i], config);
        out.push(a);
        i += 1;
    }
    out
}

/// Plans the delete actions for a package's readied items, one against
/// each observed target state, in order.
pub fn plan_delete_actions(
    prepared: &Vec<PreparedItem>,
    observations: &Vec<crate::fs_utils::TargetObservation>,
    config: &Config,
) -> (r: Vec<TargetAction>)
    requires
        prepared@.len() == observations@.len(),
        forall|i: int| 0 <= i < observations@.len() ==> (#[trigger] observations@[i]).wf(),
    ensures
        r@.len() == prepared@.len(),
        forall|i: int|
            0 <= i < r@.len() ==> {
                let p = prepared@[i];
                let obs = observations@[i];
                let a = #[trigger] r@[i];
                let classify = spec_obs_classify(p.target_path@, obs, config.stow_dir@);
                let same = spec_same_package_and_item(
                    classify,
                    p.stow_item.package_relative_path@,
                    p.package_name@,
                );
                &&& a.source_item == Some(p.stow_item)
                &&& a.target_path@ == p.target_path@
                &&& a.link_target_path is None
                &&& a.action_type == spec_delete_decision(
                    p.stow_item.item_type,
                    obs.exists,
                    obs.is_symlink,
                    same,
                )
            },
{
    let mut out: Vec<TargetAction> = Vec::new();
    let mut i: usize = 0;
    while i < prepared.len()
        invariant
            prepared@.len() == observations@.len(),
            forall|q: int| 0 <= q < observations@.len() ==> (#[trigger] observations@[q]).wf(),
            0 <= i <= prepared@.len(),
            out@.len() == i,
            forall|q: int|
                0 <= q < i ==> {
                    let p = prepared@[q];
                    let obs = observations@[q];
                    let a = #[trigger] out@[q];
                    let classify = spec_obs_classify(p.target_path@, obs, config.stow_dir@);
                    let same = spec_same_package_and_item(
                        classify,
                        p.stow_item.package_relative_path@,
                        p.package_name@,
                    );
                    &&& a.source_item == Some(p.stow_item)
                    &&& a.target_path@ == p.target_path@
                    &&& a.link_target_path is None
                    &&& a.action_type == spec_delete_decision(
                        p.stow_item.item_type,
                        obs.exists,
                        obs.is_symlink,
                        same,
                    )
                },
        decreases prepared@.len() - i,
    {
        let a = plan_delete_action_for_item(&prepared[i], &observations[i], config);
        out.push(a);
        i += 1;
    }
    out
}

/// Simulate mode for a whole plan: one report per action, in order, each
/// carrying its action unchanged with a skipped status, and nothing to
/// perform.
pub fn simulate_execution(actions: &Vec<TargetAction>) -> (r: Vec<TargetActionReport>)
    ensures
        r@.len() == actions@.len(),
        forall|i: int|
            0 <= i < r@.len() ==> (#[trigger] r@[i]).status is Skipped && r@[i].original_action
                == actions@[i],
{
    let mut out: Vec<TargetActionReport> = Vec::new();
    let mut i: usize = 0;
    while i < actions.len()
        invariant
            0 <= i <= actions@.len(),
            out@.len() == i,
            forall|q: int|
                0 <= q < i ==> (#[trigger] out@[q]).status is Skipped && out@[q].original_action
                    == actions@[q],
        decreases actions@.len() - i,
    {
        let report = execute_simulate_action(&actions[i]);
        out.push(report);
        i += 1;
    }
    out
}

/// The reports of a second stow run, at the decision level: a plan that
/// holds only skips and directory creations — what replanning over the
/// tree a first run installed yields, by `lemma_stow_replan_skips` and
/// the directory rows of `spec_stow_decision` — is decided into a
/// skipped report for every skip and a success for every directory,
/// whatever execution observes; no deletion, adoption, symlink creation
/// or failure is decided.
pub proof fn lemma_second_run_statuses(actions: Seq<TargetAction>, obs: Seq<ExecObservation>)
    requires
        actions.len() == obs.len(),
        forall|i: int|
            0 <= i < actions.len() ==> (#[trigger] actions[i]).action_type == ActionType::Skip
                || actions[i].action_type == ActionType::CreateDirectory,
    ensures
        forall|i: int|
            0 <= i < actions.len() ==> spec_execution_status(#[trigger] actions[i], obs[i], false)
                == (if actions[i].action_type == ActionType::Skip {
                ExecStatusKind::Skipped
            } else {
                ExecStatusKind::Success
            }),
{
}

} // verus!
