//! A lexical model of filesystem paths.
//!
//! A path string is viewed as its non-empty `/`-separated components plus
//! an absolute-or-relative flag.  Normalization collapses `.` and `..`
//! without consulting the filesystem, which is what symlink classification
//! needs even when a link's target no longer exists.

use vstd::prelude::*;
use crate::strutil::{split_on, split_str, str_eq, push_char_impl};

verus! {

/// The non-empty `/`-separated components of a path string.
pub open spec fn path_components(s: Seq<char>) -> Seq<Seq<char>> {
    split_on(s, '/').filter(|c: Seq<char>| c.len() != 0)
}

/// True if the path string is absolute.
pub open spec fn is_abs_path(s: Seq<char>) -> bool {
    s.len() > 0 && s[0] == '/'
}

/// A component that names a real directory entry: non-empty, holds no
/// separator, and is neither `.` nor `..`.
pub open spec fn plain_seg(c: Seq<char>) -> bool {
    c.len() > 0 && !c.contains('/') && c != "."@ && c != ".."@
}

/// All components of the sequence are plain.
pub open spec fn plain_comps(cs: Seq<Seq<char>>) -> bool {
    forall|i: int| 0 <= i < cs.len() ==> plain_seg(#[trigger] cs[i])
}

/// The string spelled by the components with `/` between them.
pub open spec fn join_rel(cs: Seq<Seq<char>>) -> Seq<char>
    decreases cs.len(),
{
    if cs.len() == 0 {
        Seq::<char>::empty()
    } else if cs.len() == 1 {
        cs[0]
    } else {
        join_rel(cs.drop_last()) + seq!['/'] + cs.last()
    }
}

/// The absolute string spelled by the components: a leading `/`, then the
/// components with `/` between them.
pub open spec fn join_abs(cs: Seq<Seq<char>>) -> Seq<char> {
    seq!['/'] + join_rel(cs)
}

/// Lexical normalization at the component level: `.` is dropped and `..`
/// removes the component before it, if any.
pub open spec fn norm_comps(cs: Seq<Seq<char>>) -> Seq<Seq<char>>
    decreases cs.len(),
{
    if cs.len() == 0 {
        cs
    } else {
        let prev = norm_comps(cs.drop_last());
        if cs.last() == ".."@ {
            if prev.len() == 0 {
                prev
            } else {
                prev.drop_last()
            }
        } else if cs.last() == "."@ {
            prev
        } else {
            prev.push(cs.last())
        }
    }
}

/// Splits a path string into its non-empty components.
pub fn split_path(s: &str) -> (r: Vec<String>)
    ensures
        r.deep_view() == path_components(s@),
{
    let raw = split_str(s, '/');
    let mut out: Vec<String> = Vec::new();
    let mut i: usize = 0;
    while i < raw.len()
        invariant
            raw.deep_view() == split_on(s@, '/'),
            0 <= i <= raw.len(),
            out.deep_view() == raw.deep_view().take(i as int).filter(
                |c: Seq<char>| c.len() != 0,
            ),
        decreases raw.len() - i,
    {
        let ghost pre = raw.deep_view().take(i as int);
        let ghost post = raw.deep_view().take(i + 1int);
        proof {
            assert(post.drop_last() =~= pre);
            assert(post.last() == raw.deep_view()[i as int]);
            reveal(Seq::filter);
        }
        if raw[i].unicode_len() > 0 {
            out.push(raw[i].clone());
        }
        assert(out.deep_view() =~= post.filter(|c: Seq<char>| c.len() != 0));
        i += 1;
    }
    assert(raw.deep_view().take(raw.len() as int) =~= raw.deep_view());
    out
}

/// True if the path string begins with `/`.
pub fn path_is_absolute(s: &str) -> (r: bool)
    ensures
        r == is_abs_path(s@),
{
    if s.unicode_len() == 0 {
        return false;
    }
    s.get_char(0) == '/'
}

/// Spells the components as a relative path string.
pub fn join_rel_path(cs: &Vec<String>) -> (r: String)
    ensures
        r@ == join_rel(cs.deep_view()),
{
    let mut out = String::new();
    let mut i: usize = 0;
    while i < cs.len()
        invariant
            0 <= i <= cs.len(),
            out@ == join_rel(cs.deep_view().take(i as int)),
        decreases cs.len() - i,
    {
        let ghost pre = cs.deep_view().take(i as int);
        let ghost post = cs.deep_view().take(i + 1int);
        proof {
            assert(post.drop_last() =~= pre);
            assert(post.last() == cs.deep_view()[i as int]);
        }
        if i > 0 {
            push_char_impl(&mut out, '/');
        }
        out.append(cs[i].as_str());
        assert(out@ =~= join_rel(post));
        i += 1;
    }
    assert(cs.deep_view().take(cs.len() as int) =~= cs.deep_view());
    out
}

/// Spells the components as an absolute path string.
pub fn join_abs_path(cs: &Vec<String>) -> (r: String)
    ensures
        r@ == join_abs(cs.deep_view()),
{
    let mut out = String::new();
    push_char_impl(&mut out, '/');
    let rest = join_rel_path(cs);
    out.append(rest.as_str());
    assert(out@ =~= join_abs(cs.deep_view()));
    out
}

/// Normalizes a component sequence, collapsing `.` and `..` lexically.
pub fn normalize_comps(cs: &Vec<String>) -> (r: Vec<String>)
    ensures
        r.deep_view() == norm_comps(cs.deep_view()),
{
    let mut out: Vec<String> = Vec::new();
    let mut i: usize = 0;
    while i < cs.len()
        invariant
            0 <= i <= cs.len(),
            out.deep_view() == norm_comps(cs.deep_view().take(i as int)),
        decreases cs.len() - i,
    {
        let ghost pre = cs.deep_view().take(i as int);
        let ghost post = cs.deep_view().take(i + 1int);
        proof {
            assert(post.drop_last() =~= pre);
            assert(post.last() == cs.deep_view()[i as int]);
        }
        if str_eq(cs[i].as_str(), "..") {
            if out.len() > 0 {
                out.pop();
                assert(out.deep_view() =~= norm_comps(pre).drop_last());
            }
        } else if str_eq(cs[i].as_str(), ".") {
        } else {
            out.push(cs[i].clone());
        }
        assert(out.deep_view() =~= norm_comps(post));
        i += 1;
    }
    assert(cs.deep_view().take(cs.len() as int) =~= cs.deep_view());
    out
}

/// True if the two component vectors spell the same components.
pub fn comps_eq(a: &Vec<String>, b: &Vec<String>) -> (r: bool)
    ensures
        r == (a.deep_view() == b.deep_view()),
{
    if a.len() != b.len() {
        assert(a.deep_view().len() != b.deep_view().len());
        return false;
    }
    let mut i: usize = 0;
    while i < a.len()
        invariant
            a.len() == b.len(),
            a.deep_view().len() == a.len(),
            b.deep_view().len() == b.len(),
            0 <= i <= a.len(),
            forall|j: int| 0 <= j < i ==> a.deep_view()[j] == b.deep_view()[j],
        decreases a.len() - i,
    {
        if !str_eq(a[i].as_str(), b[i].as_str()) {
            assert(a.deep_view()[i as int] != b.deep_view()[i as int]);
            return false;
        }
        assert(a.deep_view()[i as int] == b.deep_view()[i as int]);
        i += 1;
    }
    assert(a.deep_view() =~= b.deep_view());
    true
}

/// True if `p` is a component-wise prefix of `a`.
pub fn comps_have_prefix(a: &Vec<String>, p: &Vec<String>) -> (r: bool)
    ensures
        r == (p.deep_view().len() <= a.deep_view().len() && a.deep_view().take(
            p.deep_view().len() as int,
        ) == p.deep_view()),
{
    if p.len() > a.len() {
        return false;
    }
    let mut i: usize = 0;
    while i < p.len()
        invariant
            p.len() <= a.len(),
            a.deep_view().len() == a.len(),
            p.deep_view().len() == p.len(),
            0 <= i <= p.len(),
            forall|j: int| 0 <= j < i ==> a.deep_view()[j] == p.deep_view()[j],
        decreases p.len() - i,
    {
        if !str_eq(a[i].as_str(), p[i].as_str()) {
            assert(a.deep_view().take(p.deep_view().len() as int)[i as int] != p.deep_view()[
                i as int
            ]);
            return false;
        }
        i += 1;
    }
    assert(a.deep_view().take(p.deep_view().len() as int) =~= p.deep_view());
    true
}

/// Components that can be spelled into a path and read back: each is
/// non-empty and holds no separator.  Every plain component qualifies,
/// and so does `..`.
pub open spec fn sep_free(cs: Seq<Seq<char>>) -> bool {
    forall|i: int| 0 <= i < cs.len() ==> (#[trigger] cs[i]).len() > 0 && !cs[i].contains('/')
}

/// The first character of a joined path is the first character of its
/// first component.
pub proof fn lemma_join_rel_first_char(cs: Seq<Seq<char>>)
    requires
        cs.len() > 0,
        cs[0].len() > 0,
    ensures
        join_rel(cs).len() > 0,
        join_rel(cs)[0] == cs[0][0],
    decreases cs.len(),
{
    if cs.len() > 1 {
        lemma_join_rel_first_char(cs.drop_last());
        assert(cs.drop_last()[0] == cs[0]);
        assert(join_rel(cs)[0] == join_rel(cs.drop_last())[0]);
    }
}

/// Reading a joined relative path back gives exactly the components it
/// was spelled from.
pub proof fn lemma_components_of_join_rel(cs: Seq<Seq<char>>)
    requires
        sep_free(cs),
    ensures
        path_components(join_rel(cs)) == cs,
    decreases cs.len(),
{
    reveal_with_fuel(Seq::filter, 4);
    if cs.len() == 0 {
        assert(join_rel(cs).len() == 0);
        assert(crate::strutil::split_on(join_rel(cs), '/') =~= seq![Seq::<char>::empty()]);
        assert(seq![Seq::<char>::empty()].drop_last() =~= Seq::<Seq<char>>::empty());
        assert(path_components(join_rel(cs)) =~= cs);
    } else if cs.len() == 1 {
        let c = cs[0];
        assert(forall|i: int| 0 <= i < c.len() ==> c[i] != '/') by {
            assert(forall|i: int| 0 <= i < c.len() && c[i] == '/' ==> c.contains('/'));
        }
        crate::strutil::lemma_split_state_app_no_sep(Seq::<char>::empty(), c, '/');
        assert(Seq::<char>::empty() + c =~= c);
        assert(join_rel(cs) == c);
        assert(crate::strutil::split_on(c, '/') =~= seq![c]);
        assert(seq![c].drop_last() =~= Seq::<Seq<char>>::empty());
        assert(path_components(join_rel(cs)) =~= cs);
    } else {
        let pre = cs.drop_last();
        let c = cs.last();
        assert(sep_free(pre));
        lemma_components_of_join_rel(pre);
        let jp = join_rel(pre);
        let d = crate::strutil::split_state(jp, '/').0;
        let cur = crate::strutil::split_state(jp, '/').1;
        crate::strutil::lemma_split_state_sep(jp, '/');
        assert(jp + seq!['/'] =~= jp.push('/'));
        assert(forall|i: int| 0 <= i < c.len() ==> c[i] != '/') by {
            assert(forall|i: int| 0 <= i < c.len() && c[i] == '/' ==> c.contains('/'));
        }
        crate::strutil::lemma_split_state_app_no_sep(jp.push('/'), c, '/');
        assert(join_rel(cs) =~= jp.push('/') + c);
        assert(crate::strutil::split_state(join_rel(cs), '/').0 == d.push(cur));
        assert(crate::strutil::split_state(join_rel(cs), '/').1 =~= c);
        assert(crate::strutil::split_on(join_rel(cs), '/') =~= d.push(cur).push(c));
        assert(d.push(cur).push(c).drop_last() =~= d.push(cur));
        assert(crate::strutil::split_on(jp, '/') =~= d.push(cur));
        assert(c.len() != 0);
        assert(path_components(join_rel(cs)) =~= path_components(jp).push(c));
        assert(pre.push(c) =~= cs);
    }
}

/// Reading a joined absolute path back gives exactly the components it
/// was spelled from, and the path is absolute.
pub proof fn lemma_components_of_join_abs(cs: Seq<Seq<char>>)
    requires
        sep_free(cs),
    ensures
        is_abs_path(join_abs(cs)),
        path_components(join_abs(cs)) == cs,
    decreases cs.len(),
{
    reveal_with_fuel(Seq::filter, 4);
    if cs.len() == 0 {
        assert(join_abs(cs) =~= seq!['/']);
        crate::strutil::lemma_split_state_sep(Seq::<char>::empty(), '/');
        assert(Seq::<char>::empty().push('/') =~= seq!['/']);
        assert(crate::strutil::split_state(seq!['/'], '/').0 =~= seq![Seq::<char>::empty()]);
        assert(crate::strutil::split_state(seq!['/'], '/').1 =~= Seq::<char>::empty());
        assert(crate::strutil::split_on(join_abs(cs), '/') =~= seq![
            Seq::<char>::empty(),
            Seq::<char>::empty(),
        ]);
        assert(seq![Seq::<char>::empty(), Seq::<char>::empty()].drop_last() =~= seq![
            Seq::<char>::empty(),
        ]);
        assert(seq![Seq::<char>::empty()].drop_last() =~= Seq::<Seq<char>>::empty());
        assert(path_components(join_abs(cs)) =~= cs);
    } else if cs.len() == 1 {
        let c = cs[0];
        assert(join_rel(cs) == c);
        assert(forall|i: int| 0 <= i < c.len() ==> c[i] != '/') by {
            assert(forall|i: int| 0 <= i < c.len() && c[i] == '/' ==> c.contains('/'));
        }
        crate::strutil::lemma_split_state_app_no_sep(seq!['/'], c, '/');
        assert(join_abs(cs) =~= seq!['/'] + c);
        crate::strutil::lemma_split_state_sep(Seq::<char>::empty(), '/');
        assert(Seq::<char>::empty().push('/') =~= seq!['/']);
        assert(crate::strutil::split_state(seq!['/'], '/').0 =~= seq![Seq::<char>::empty()]);
        assert(crate::strutil::split_state(seq!['/'], '/').1 =~= Seq::<char>::empty());
        assert(crate::strutil::split_on(join_abs(cs), '/') =~= seq![Seq::<char>::empty(), c]);
        assert(seq![Seq::<char>::empty(), c].drop_last() =~= seq![Seq::<char>::empty()]);
        assert(seq![Seq::<char>::empty()].drop_last() =~= Seq::<Seq<char>>::empty());
        assert(path_components(join_abs(cs)) =~= cs);
    } else {
        let pre = cs.drop_last();
        let c = cs.last();
        assert(sep_free(pre));
        lemma_components_of_join_abs(pre);
        let jp = join_abs(pre);
        assert(jp =~= seq!['/'] + join_rel(pre));
        assert(join_abs(cs) =~= jp + seq!['/'] + c) by {
            assert(join_rel(cs) =~= join_rel(pre) + seq!['/'] + c);
            assert(seq!['/'] + (join_rel(pre) + seq!['/'] + c) =~= (seq!['/'] + join_rel(pre))
                + seq!['/'] + c);
        }
        let d = crate::strutil::split_state(jp, '/').0;
        let cur = crate::strutil::split_state(jp, '/').1;
        crate::strutil::lemma_split_state_sep(jp, '/');
        assert(jp + seq!['/'] =~= jp.push('/'));
        assert(forall|i: int| 0 <= i < c.len() ==> c[i] != '/') by {
            assert(forall|i: int| 0 <= i < c.len() && c[i] == '/' ==> c.contains('/'));
        }
        crate::strutil::lemma_split_state_app_no_sep(jp.push('/'), c, '/');
        assert(join_abs(cs) =~= jp.push('/') + c);
        assert(crate::strutil::split_state(join_abs(cs), '/').0 == d.push(cur));
        assert(crate::strutil::split_state(join_abs(cs), '/').1 =~= c);
        assert(crate::strutil::split_on(join_abs(cs), '/') =~= d.push(cur).push(c));
        assert(d.push(cur).push(c).drop_last() =~= d.push(cur));
        assert(crate::strutil::split_on(jp, '/') =~= d.push(cur));
        assert(c.len() != 0);
        assert(path_components(join_abs(cs)) =~= path_components(jp).push(c));
        assert(pre.push(c) =~= cs);
        assert(join_abs(cs).len() > 0 && join_abs(cs)[0] == '/');
    }
}

/// True if the string is an absolute path whose components are all plain:
/// the shape of a canonical path.
pub fn is_canonical_shape(s: &str) -> (r: bool)
    ensures
        r == (is_abs_path(s@) && plain_comps(path_components(s@))),
{
    if !path_is_absolute(s) {
        return false;
    }
    let comps = split_path(s);
    let ghost cs = comps.deep_view();
    let mut i: usize = 0;
    while i < comps.len()
        invariant
            cs == comps.deep_view(),
            cs == path_components(s@),
            cs.len() == comps.len(),
            0 <= i <= comps.len(),
            forall|j: int| 0 <= j < i ==> plain_seg(#[trigger] cs[j]),
        decreases comps.len() - i,
    {
        let c = comps[i].as_str();
        assert(c@ == cs[i as int]);
        if c.unicode_len() == 0 || crate::strutil::str_contains_char(c, '/') || str_eq(c, ".")
            || str_eq(c, "..") {
            assert(!plain_seg(cs[i as int]));
            return false;
        }
        assert(plain_seg(cs[i as int]));
        i += 1;
    }
    true
}

/// A sequence of `k` copies of the `..` component.
pub open spec fn dotdots(k: nat) -> Seq<Seq<char>>
    decreases k,
{
    if k == 0 {
        Seq::<Seq<char>>::empty()
    } else {
        dotdots((k - 1) as nat).push(".."@)
    }
}

/// Normalization leaves a plain sequence unchanged.
pub proof fn lemma_norm_plain(cs: Seq<Seq<char>>)
    requires
        plain_comps(cs),
    ensures
        norm_comps(cs) == cs,
    decreases cs.len(),
{
    if cs.len() > 0 {
        assert(plain_seg(cs.last()));
        assert(plain_comps(cs.drop_last()));
        lemma_norm_plain(cs.drop_last());
        assert(norm_comps(cs) =~= cs.drop_last().push(cs.last()));
        assert(cs.drop_last().push(cs.last()) =~= cs);
    } else {
        assert(norm_comps(cs) =~= cs);
    }
}

/// Appending `k` `..` components to a plain sequence removes its last `k`
/// components under normalization.
pub proof fn lemma_norm_dotdots(base: Seq<Seq<char>>, k: nat)
    requires
        plain_comps(base),
        k <= base.len(),
    ensures
        norm_comps(base + dotdots(k)) == base.take(base.len() - k),
    decreases k,
{
    if k == 0 {
        assert(base + dotdots(0) =~= base);
        lemma_norm_plain(base);
        assert(base.take(base.len() as int) =~= base);
    } else {
        let whole = base + dotdots(k);
        assert(whole.drop_last() =~= base + dotdots((k - 1) as nat));
        assert(whole.last() == ".."@);
        lemma_norm_dotdots(base, (k - 1) as nat);
        assert(norm_comps(whole.drop_last()).len() == base.len() - (k - 1));
        assert(norm_comps(whole) =~= base.take(base.len() - (k - 1)).drop_last());
        assert(base.take(base.len() - (k - 1)).drop_last() =~= base.take(base.len() - k));
    }
}

/// Appending a plain suffix appends it to the normal form as well.
pub proof fn lemma_norm_plain_suffix(xs: Seq<Seq<char>>, suffix: Seq<Seq<char>>)
    requires
        plain_comps(suffix),
    ensures
        norm_comps(xs + suffix) == norm_comps(xs) + suffix,
    decreases suffix.len(),
{
    if suffix.len() == 0 {
        assert(xs + suffix =~= xs);
        assert(norm_comps(xs) + suffix =~= norm_comps(xs));
    } else {
        let whole = xs + suffix;
        assert(whole.drop_last() =~= xs + suffix.drop_last());
        assert(plain_comps(suffix.drop_last()));
        lemma_norm_plain_suffix(xs, suffix.drop_last());
        assert(plain_seg(suffix.last()));
        assert(norm_comps(whole) =~= (norm_comps(xs) + suffix.drop_last()).push(suffix.last()));
        assert((norm_comps(xs) + suffix.drop_last()).push(suffix.last()) =~= norm_comps(xs)
            + suffix);
    }
}

/// The relative component path that leads from the directory named by
/// `base` to the entry named by `source`: `..` up to the common prefix,
/// then down along `source`.  Resolving it against `base` by lexical
/// normalization lands exactly on `source`.
pub fn relative_path_from(source: &Vec<String>, base: &Vec<String>) -> (r: Vec<String>)
    requires
        plain_comps(source.deep_view()),
        plain_comps(base.deep_view()),
    ensures
        norm_comps(base.deep_view() + r.deep_view()) == source.deep_view(),
        sep_free(r.deep_view()),
        r.deep_view().len() > 0 ==> r.deep_view()[0][0] != '/',
{
    let ghost sv = source.deep_view();
    let ghost bv = base.deep_view();
    let mut common: usize = 0;
    loop
        invariant
            sv == source.deep_view(),
            bv == base.deep_view(),
            sv.len() == source.len(),
            bv.len() == base.len(),
            0 <= common <= source.len(),
            0 <= common <= base.len(),
            forall|j: int| 0 <= j < common ==> sv[j] == bv[j],
        decreases source.len() - common,
    {
        if common >= source.len() || common >= base.len() {
            break;
        }
        if !str_eq(source[common].as_str(), base[common].as_str()) {
            break;
        }
        assert(sv[common as int] == bv[common as int]);
        common += 1;
    }
    let mut out: Vec<String> = Vec::new();
    let mut up: usize = base.len() - common;
    let ghost k = up as nat;
    while up > 0
        invariant
            out.deep_view() == dotdots((k - up) as nat),
            up <= k,
        decreases up,
    {
        out.push(String::from_str(".."));
        up -= 1;
    }
    assert(out.deep_view() == dotdots(k));
    assert(dotdots(k) + sv.subrange(common as int, common as int) =~= dotdots(k));
    let mut i: usize = common;
    while i < source.len()
        invariant
            sv == source.deep_view(),
            sv.len() == source.len(),
            common <= i <= source.len(),
            out.deep_view() == dotdots(k) + sv.subrange(common as int, i as int),
        decreases source.len() - i,
    {
        let ghost before = out.deep_view();
        let elem = source[i].clone();
        assert(elem@ == sv[i as int]);
        out.push(elem);
        proof {
            assert(out.deep_view() =~= before.push(sv[i as int]));
            assert(sv.subrange(common as int, i as int).push(sv[i as int]) =~= sv.subrange(
                common as int,
                i + 1int,
            ));
            assert(before.push(sv[i as int]) =~= dotdots(k) + sv.subrange(
                common as int,
                i + 1int,
            ));
        }
        i += 1;
    }
    proof {
        let suffix = sv.subrange(common as int, sv.len() as int);
        assert(out.deep_view() == dotdots(k) + suffix);
        assert(plain_comps(suffix));
        lemma_norm_dotdots(bv, k);
        assert(bv + (dotdots(k) + suffix) =~= (bv + dotdots(k)) + suffix);
        lemma_norm_plain_suffix(bv + dotdots(k), suffix);
        assert(bv.take(bv.len() - k) =~= sv.take(common as int));
        assert(sv.take(common as int) + suffix =~= sv);
        lemma_dotdots_len(k);
        assert(sep_free(out.deep_view())) by {
            reveal_strlit("..");
            assert(!".."@.contains('/')) by {
                if ".."@.contains('/') {
                    let j = choose|j: int| 0 <= j < ".."@.len() && ".."@[j] == '/';
                    assert(".."@[j] == '.');
                }
            }
            assert forall|q: int| 0 <= q < out.deep_view().len() implies (#[trigger] out.deep_view()[
                q
            ]).len() > 0 && !out.deep_view()[q].contains('/') by {
                if q < k {
                    lemma_dotdots_index(k, q);
                    assert(out.deep_view()[q] == ".."@);
                    assert(".."@.len() == 2);
                } else {
                    assert(out.deep_view()[q] == suffix[q - k]);
                    assert(plain_seg(suffix[q - k]));
                }
            }
        }
        if out.deep_view().len() > 0 {
            let first = out.deep_view()[0];
            if k > 0 {
                lemma_dotdots_index(k, 0);
                assert(first == ".."@);
                reveal_strlit("..");
            } else {
                assert(first == suffix[0]);
                assert(plain_seg(first));
                assert(!first.contains('/'));
                assert(first[0] != '/') by {
                    if first[0] == '/' {
                        assert(first.contains('/'));
                    }
                }
            }
        }
    }
    out
}

/// Indexing into a run of `..` components.
pub proof fn lemma_dotdots_index(k: nat, i: int)
    requires
        0 <= i < k,
    ensures
        dotdots(k).len() == k,
        dotdots(k)[i] == ".."@,
    decreases k,
{
    if k > 0 && i < k - 1 {
        lemma_dotdots_index((k - 1) as nat, i);
    } else if k > 0 {
        lemma_dotdots_len((k - 1) as nat);
    }
}

/// The length of a run of `..` components.
pub proof fn lemma_dotdots_len(k: nat)
    ensures
        dotdots(k).len() == k,
    decreases k,
{
    if k > 0 {
        lemma_dotdots_len((k - 1) as nat);
    }
}

} // verus!
