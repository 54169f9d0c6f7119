//! The library's model of what the filesystem shows.
//!
//! The engine never touches the disk itself: the thin binary around it
//! observes paths and hands the observations in as plain values.  This
//! module holds those observation types, the package items a traversal
//! yields, and the lexical classifier that decides whether a symlink is
//! stow-managed.

use vstd::prelude::*;
use crate::paths::{
    is_abs_path, join_rel, norm_comps, path_components, split_path, normalize_comps,
    comps_have_prefix, join_rel_path, path_is_absolute,
};

verus! {

/// The type of one package entry, as observed on disk; symlinks are not
/// followed for classification.
#[derive(Debug, Clone, Copy, PartialEq, Eq, Hash, Structural)]
pub enum RawStowItemType {
    File,
    Directory,
    Symlink,
}

/// One package entry produced by traversal.
#[derive(Debug)]
pub struct RawStowItem {
    /// Absolute path of the entry on disk.
    pub absolute_path: String,
    /// Path of the entry from the package root.
    pub package_relative_path: String,
    /// The entry's type.
    pub item_type: RawStowItemType,
}

impl Clone for RawStowItem {
    fn clone(&self) -> (r: Self)
        ensures
            r == *self,
    {
        RawStowItem {
            absolute_path: self.absolute_path.clone(),
            package_relative_path: self.package_relative_path.clone(),
            item_type: self.item_type,
        }
    }
}

impl RawStowItem {
    /// The item's name: the last component of its package-relative path,
    /// or the empty string for an empty path.
    pub open spec fn spec_basename(&self) -> Seq<char> {
        let cs = path_components(self.package_relative_path@);
        if cs.len() > 0 {
            cs.last()
        } else {
            Seq::<char>::empty()
        }
    }

    /// The item's name: the last component of its package-relative path.
    pub fn basename(&self) -> (r: String)
        ensures
            r@ == self.spec_basename(),
    {
        let comps = split_path(self.package_relative_path.as_str());
        if comps.len() > 0 {
            let last = comps[comps.len() - 1].clone();
            assert(last@ == comps.deep_view().last());
            last
        } else {
            String::new()
        }
    }
}

/// What one inspection of a target path observed.  `exists` and `is_dir`
/// follow symlinks, as the corresponding library calls do; `is_symlink`
/// does not.  A symlink's literal body is carried along.
#[derive(Debug)]
pub struct TargetObservation {
    /// The path resolves to something.
    pub exists: bool,
    /// The path resolves to a directory.
    pub is_dir: bool,
    /// The path itself is a symlink.
    pub is_symlink: bool,
    /// The literal link body, when the path is a symlink.
    pub link_body: Option<String>,
    /// The directory's entries, when the path is a directory.
    pub entries: Vec<DirEntryObs>,
}

/// One directory entry, as observed for the non-stow-content check.
#[derive(Debug)]
pub struct DirEntryObs {
    /// Absolute path of the entry.
    pub path: String,
    /// The entry itself is a symlink.
    pub is_symlink: bool,
    /// The literal link body, when the entry is a symlink.
    pub link_body: Option<String>,
}

impl TargetObservation {
    /// A consistent observation: a symlink shows its body, and whatever
    /// resolves to a directory exists.
    pub open spec fn wf(&self) -> bool {
        &&& (self.is_symlink ==> self.link_body is Some)
        &&& (self.is_dir ==> self.exists)
    }

    /// An observation of a path with nothing at it.
    pub fn missing() -> (r: TargetObservation)
        ensures
            r.wf(),
            !r.exists,
            !r.is_dir,
            !r.is_symlink,
    {
        TargetObservation {
            exists: false,
            is_dir: false,
            is_symlink: false,
            link_body: None,
            entries: Vec::new(),
        }
    }
}

/// Whether the observed state has anything at the path.
pub fn path_exists(obs: &TargetObservation) -> (r: bool)
    ensures
        r == obs.exists,
{
    obs.exists
}

/// Whether the observed state resolves to a directory.
pub fn is_directory(obs: &TargetObservation) -> (r: bool)
    ensures
        r == obs.is_dir,
{
    obs.is_dir
}

/// Whether the observed path itself is a symlink.
pub fn is_symlink(obs: &TargetObservation) -> (r: bool)
    ensures
        r == obs.is_symlink,
{
    obs.is_symlink
}

/// Where a link body points, resolved lexically: an absolute body stands
/// alone; a relative one counts from the link's parent directory.
pub open spec fn spec_resolved_link(link: Seq<char>, body: Seq<char>) -> Seq<Seq<char>> {
    if is_abs_path(body) {
        norm_comps(path_components(body))
    } else {
        let cs = path_components(link);
        let parent = if cs.len() > 0 {
            cs.drop_last()
        } else {
            cs
        };
        norm_comps(parent + path_components(body))
    }
}

/// The classification of a symlink against the stow root: the package
/// name and the item's component path inside the package, when the
/// resolved target lies strictly inside the root.
pub open spec fn spec_classify_stow_symlink(
    link: Seq<char>,
    body: Option<Seq<char>>,
    stow_dir: Seq<char>,
) -> Option<(Seq<char>, Seq<Seq<char>>)> {
    match body {
        None => None,
        Some(b) => {
            let resolved = spec_resolved_link(link, b);
            let sc = path_components(stow_dir);
            if resolved.len() > sc.len() && resolved.take(sc.len() as int) == sc {
                Some((resolved[sc.len() as int], resolved.skip(sc.len() as int + 1)))
            } else {
                None
            }
        },
    }
}

/// Classifies a symlink at `link_path` whose literal body is `link_body`
/// (`None` when the path is not a symlink) against the canonical stow
/// root: the package name and the item path inside the package, when the
/// lexically resolved target lies inside a package of the root.  The
/// resolution is lexical, so a link whose target no longer exists is
/// still classified.
pub fn is_stow_symlink(link_path: &str, link_body: Option<&str>, stow_dir: &str) -> (r: Option<
    (String, String),
>)
    ensures
        match spec_classify_stow_symlink(
            link_path@,
            match link_body {
                Some(b) => Some(b@),
                None => None,
            },
            stow_dir@,
        ) {
            Some(pi) => match r {
                Some(q) => q.0@ == pi.0 && q.1@ == join_rel(pi.1),
                None => false,
            },
            None => r is None,
        },
{
    let body = match link_body {
        Some(b) => b,
        None => {
            return None;
        },
    };
    let body_comps = split_path(body);
    let resolved: Vec<String>;
    if path_is_absolute(body) {
        resolved = normalize_comps(&body_comps);
    } else {
        let mut link_comps = split_path(link_path);
        let ghost lcs = path_components(link_path@);
        let ghost parent = if lcs.len() > 0 {
            lcs.drop_last()
        } else {
            lcs
        };
        if link_comps.len() > 0 {
            link_comps.pop();
        }
        assert(link_comps.deep_view() =~= parent);
        let mut joined = link_comps;
        let mut bi: usize = 0;
        let ghost bcs = path_components(body@);
        while bi < body_comps.len()
            invariant
                bcs == body_comps.deep_view(),
                bcs.len() == body_comps.len(),
                0 <= bi <= body_comps.len(),
                joined.deep_view() == parent + bcs.take(bi as int),
            decreases body_comps.len() - bi,
        {
            let ghost before = joined.deep_view();
            let elem = body_comps[bi].clone();
            assert(elem@ == bcs[bi as int]);
            joined.push(elem);
            proof {
                assert(joined.deep_view() =~= before.push(bcs[bi as int]));
                assert(before.push(bcs[bi as int]) =~= parent + bcs.take(bi + 1int));
            }
            bi += 1;
        }
        assert(joined.deep_view() =~= parent + bcs);
        resolved = normalize_comps(&joined);
    }
    let sc = split_path(stow_dir);
    if resolved.len() > sc.len() && comps_have_prefix(&resolved, &sc) {
        let package = resolved[sc.len()].clone();
        let mut item_comps: Vec<String> = Vec::new();
        let mut i: usize = sc.len() + 1;
        let ghost rv = resolved.deep_view();
        while i < resolved.len()
            invariant
                rv == resolved.deep_view(),
                rv.len() == resolved.len(),
                sc@.len() as int + 1 <= i <= resolved.len(),
                item_comps.deep_view() == rv.subrange(sc@.len() as int + 1, i as int),
            decreases resolved.len() - i,
        {
            let ghost before = item_comps.deep_view();
            let elem = resolved[i].clone();
            assert(elem@ == rv[i as int]);
            item_comps.push(elem);
            proof {
                assert(item_comps.deep_view() =~= before.push(rv[i as int]));
                assert(before.push(rv[i as int]) =~= rv.subrange(sc@.len() as int + 1, i + 1int));
            }
            i += 1;
        }
        assert(item_comps.deep_view() =~= rv.skip(sc@.len() as int + 1));
        let item_path = join_rel_path(&item_comps);
        Some((package, item_path))
    } else {
        None
    }
}

/// A link the planner itself computed classifies back to its own package
/// and item: spell the target path, the relative link value and the stow
/// root from components, and the lexical resolution lands exactly on the
/// item inside its package.
pub proof fn lemma_own_link_classifies_home(
    stow_comps: Seq<Seq<char>>,
    pkg: Seq<char>,
    item_comps: Seq<Seq<char>>,
    target_comps: Seq<Seq<char>>,
    link_comps: Seq<Seq<char>>,
)
    requires
        crate::paths::plain_comps(stow_comps),
        crate::paths::plain_seg(pkg),
        crate::paths::plain_comps(target_comps),
        target_comps.len() > 0,
        crate::paths::sep_free(link_comps),
        link_comps.len() > 0 ==> link_comps[0][0] != '/',
        crate::paths::norm_comps(target_comps.drop_last() + link_comps) == stow_comps + seq![pkg]
            + item_comps,
    ensures
        spec_classify_stow_symlink(
            crate::paths::join_abs(target_comps),
            Some(crate::paths::join_rel(link_comps)),
            crate::paths::join_abs(stow_comps),
        ) == Some((pkg, item_comps)),
{
    let link = crate::paths::join_abs(target_comps);
    let body = crate::paths::join_rel(link_comps);
    let stow = crate::paths::join_abs(stow_comps);
    assert(crate::paths::sep_free(target_comps)) by {
        assert(forall|i: int|
            0 <= i < target_comps.len() ==> crate::paths::plain_seg(#[trigger] target_comps[i]));
    }
    assert(crate::paths::sep_free(stow_comps)) by {
        assert(forall|i: int|
            0 <= i < stow_comps.len() ==> crate::paths::plain_seg(#[trigger] stow_comps[i]));
    }
    crate::paths::lemma_components_of_join_abs(target_comps);
    crate::paths::lemma_components_of_join_abs(stow_comps);
    crate::paths::lemma_components_of_join_rel(link_comps);
    assert(!is_abs_path(body)) by {
        if link_comps.len() == 0 {
            assert(body.len() == 0);
        } else {
            crate::paths::lemma_join_rel_first_char(link_comps);
        }
    }
    let resolved = spec_resolved_link(link, body);
    assert(resolved == crate::paths::norm_comps(target_comps.drop_last() + link_comps));
    let whole = stow_comps + seq![pkg] + item_comps;
    let sc = path_components(stow);
    assert(sc == stow_comps);
    assert(whole.len() == stow_comps.len() + 1 + item_comps.len());
    assert(whole.take(sc.len() as int) =~= stow_comps);
    assert(whole[sc.len() as int] == pkg);
    assert(whole.skip(sc.len() as int + 1) =~= item_comps);
}

} // verus!
