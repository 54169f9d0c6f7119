//! The `dot-` naming convention: when the dotfiles policy is on, a path
//! component written `dot-<x>` in a package names the target entry `.<x>`.

use vstd::prelude::*;
use crate::strutil::{split_on, split_str, str_has_prefix};
use crate::paths::join_rel;

verus! {

/// One component after dot-file rewriting: a leading `dot-` becomes `.`
/// when the policy is on; every other component is unchanged.
pub open spec fn rewrite_component(c: Seq<char>, enabled: bool) -> Seq<char> {
    if enabled && c.len() >= 4 && c.subrange(0, 4) == "dot-"@ {
        seq!['.'] + c.subrange(4, c.len() as int)
    } else {
        c
    }
}

/// A whole path after dot-file rewriting: the rewrite applied to each
/// `/`-separated segment independently, joined back with `/`.
pub open spec fn rewrite_path(s: Seq<char>, enabled: bool) -> Seq<char> {
    join_rel(split_on(s, '/').map_values(|c: Seq<char>| rewrite_component(c, enabled)))
}

/// Rewrites one path component.
pub fn process_component(c: &str, enabled: bool) -> (r: String)
    ensures
        r@ == rewrite_component(c@, enabled),
{
    proof {
        reveal_strlit("dot-");
        reveal_strlit(".");
    }
    if enabled && str_has_prefix(c, "dot-") {
        let mut out = String::from_str(".");
        let rest = c.substring_char(4, c.unicode_len());
        out.append(rest);
        assert(out@ =~= rewrite_component(c@, enabled));
        out
    } else {
        let out = c.to_owned();
        out
    }
}

/// Applies the dot-file naming convention to a package-relative path:
/// each `/`-separated component is rewritten independently, so the result
/// is the join of the rewrites of the components.
pub fn process_item_name(item_name: &str, is_dotfiles_enabled: bool) -> (r: String)
    ensures
        r@ == rewrite_path(item_name@, is_dotfiles_enabled),
{
    let segs = split_str(item_name, '/');
    let ghost rawv = segs.deep_view();
    let mut rewritten: Vec<String> = Vec::new();
    let mut i: usize = 0;
    while i < segs.len()
        invariant
            rawv == segs.deep_view(),
            rawv.len() == segs.len(),
            0 <= i <= segs.len(),
            rewritten.deep_view().len() == i,
            forall|j: int|
                0 <= j < i ==> rewritten.deep_view()[j] == rewrite_component(
                    rawv[j],
                    is_dotfiles_enabled,
                ),
        decreases segs.len() - i,
    {
        let one = process_component(segs[i].as_str(), is_dotfiles_enabled);
        let ghost before = rewritten.deep_view();
        let ghost onev = one@;
        rewritten.push(one);
        assert(rewritten.deep_view() =~= before.push(onev));
        i += 1;
    }
    proof {
        assert(rewritten.deep_view() =~= rawv.map_values(
            |c: Seq<char>| rewrite_component(c, is_dotfiles_enabled),
        ));
    }
    crate::paths::join_rel_path(&rewritten)
}

} // verus!
