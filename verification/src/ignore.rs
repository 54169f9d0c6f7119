//! Ignore-pattern loading and classification.
//!
//! Exactly one source of patterns is active per package, with fixed
//! precedence: the package's own ignore file, then the per-user file, then
//! the built-in defaults.  A pattern that holds a `/` is matched against
//! the whole item path (spelled with a leading `/`); any other pattern is
//! matched against the basename and against every parent component of the
//! path.

use vstd::prelude::*;
use crate::error::IgnoreError;
use crate::paths::path_components;
use crate::patterns::{compile_check, pattern_is_match, pattern_matches, regex_valid};
use crate::strutil::{split_on, split_str, str_contains_char, str_eq, trim_str, trim_ws};

verus! {

/// An ordered list of ignore patterns, kept as the regex texts the source
/// file or the defaults supplied.
#[derive(Debug)]
pub struct IgnorePatterns {
    patterns: Vec<String>,
}

/// One hit of a single pattern on an item.  A pattern with a `/` is a
/// path pattern and is tried on the full path; any other pattern is tried
/// on the basename and on each component of the path, except that an item
/// whose whole path is one component equal to the basename is judged by
/// the basename test alone.
pub open spec fn spec_pattern_hits(pat: Seq<char>, path: Seq<char>, base: Seq<char>) -> bool {
    if pat.contains('/') {
        pattern_matches(pat, path)
    } else {
        let cs = path_components(path);
        pattern_matches(pat, base) || (exists|i: int|
            0 <= i < cs.len() && pattern_matches(pat, #[trigger] cs[i]) && !(cs[i] == base
                && cs.len() == 1))
    }
}

/// Whether any pattern of the set hits the item.
pub open spec fn spec_is_ignored(pats: Seq<Seq<char>>, path: Seq<char>, base: Seq<char>) -> bool {
    exists|k: int| 0 <= k < pats.len() && spec_pattern_hits(#[trigger] pats[k], path, base)
}

/// Each line of the sequence, trimmed.
pub open spec fn trimmed_lines(ls: Seq<Seq<char>>) -> Seq<Seq<char>> {
    Seq::new(ls.len(), |i: int| trim_ws(ls[i]))
}

/// A trimmed line that is a pattern: non-blank and not a comment.
pub open spec fn keep_line(t: Seq<char>) -> bool {
    t.len() > 0 && t[0] != '#'
}

/// The subsequence of lines that are patterns, in order.
pub open spec fn kept_lines(ts: Seq<Seq<char>>) -> Seq<Seq<char>>
    decreases ts.len(),
{
    if ts.len() == 0 {
        Seq::<Seq<char>>::empty()
    } else {
        let prev = kept_lines(ts.drop_last());
        if keep_line(ts.last()) {
            prev.push(ts.last())
        } else {
            prev
        }
    }
}

/// A line that is a pattern appears among the kept lines.
pub proof fn lemma_kept_lines_contains(ts: Seq<Seq<char>>, i: int)
    requires
        0 <= i < ts.len(),
        keep_line(ts[i]),
    ensures
        kept_lines(ts).contains(ts[i]),
    decreases ts.len(),
{
    if i == ts.len() - 1 {
        assert(kept_lines(ts).last() == ts[i]);
    } else {
        lemma_kept_lines_contains(ts.drop_last(), i);
        let prev = kept_lines(ts.drop_last());
        let j = choose|j: int| 0 <= j < prev.len() && prev[j] == ts.drop_last()[i];
        assert(kept_lines(ts)[j] == prev[j]);
    }
}

/// The patterns of an ignore file: its lines trimmed, blank lines and
/// comment lines dropped.
pub open spec fn parsed_patterns(text: Seq<char>) -> Seq<Seq<char>> {
    kept_lines(trimmed_lines(split_on(text, '\n')))
}

/// The built-in default ignore patterns.
pub open spec fn default_patterns() -> Seq<Seq<char>> {
    seq![
        "\\.git"@,
        "CVS"@,
        "\\.svn"@,
        "RCS"@,
        "_darcs"@,
        ".*~"@,
        "#.*#"@,
        "\\.#.+"@,
        ".+,v"@,
        "\\.stow-local-ignore"@,
        "\\.gitignore"@,
        "\\.cvsignore"@,
        "^/README.*"@,
        "^/LICENSE.*"@,
        "^/COPYING$"@,
    ]
}

/// Classifies one item against the pattern set.  The item path must be
/// spelled with a leading `/` (`/dir/file.txt`); the basename is the
/// item's own name.
pub fn is_ignored(
    item_package_relative_path: &str,
    item_basename: &str,
    ignore_patterns: &IgnorePatterns,
) -> (r: bool)
    ensures
        r == spec_is_ignored(
            ignore_patterns.pats(),
            item_package_relative_path@,
            item_basename@,
        ),
{
    let ghost pats = ignore_patterns.pats();
    let ghost pathv = item_package_relative_path@;
    let ghost basev = item_basename@;
    let comps = crate::paths::split_path(item_package_relative_path);
    let ghost cs = comps.deep_view();
    let mut k: usize = 0;
    while k < ignore_patterns.patterns.len()
        invariant
            pats == ignore_patterns.pats(),
            pathv == item_package_relative_path@,
            basev == item_basename@,
            cs == comps.deep_view(),
            cs == path_components(pathv),
            pats.len() == ignore_patterns.patterns.len(),
            cs.len() == comps.len(),
            0 <= k <= pats.len(),
            forall|j: int| 0 <= j < k ==> !spec_pattern_hits(#[trigger] pats[j], pathv, basev),
        decreases pats.len() - k,
    {
        let pat = &ignore_patterns.patterns[k];
        assert(pat@ == pats[k as int]);
        if str_contains_char(pat.as_str(), '/') {
            if pattern_is_match(pat.as_str(), item_package_relative_path) {
                assert(spec_pattern_hits(pats[k as int], pathv, basev));
                return true;
            }
        } else {
            if pattern_is_match(pat.as_str(), item_basename) {
                assert(spec_pattern_hits(pats[k as int], pathv, basev));
                return true;
            }
            let mut i: usize = 0;
            while i < comps.len()
                invariant
                    pats == ignore_patterns.pats(),
                    pathv == item_package_relative_path@,
                    basev == item_basename@,
                    cs == comps.deep_view(),
                    cs == path_components(pathv),
                    cs.len() == comps.len(),
                    0 <= k < pats.len(),
                    pat@ == pats[k as int],
                    !pat@.contains('/'),
                    !pattern_matches(pat@, basev),
                    0 <= i <= cs.len(),
                    forall|j: int|
                        0 <= j < i ==> !(pattern_matches(pat@, #[trigger] cs[j]) && !(cs[j]
                            == basev && cs.len() == 1)),
                decreases cs.len() - i,
            {
                assert(comps@[i as int]@ == cs[i as int]);
                let hit = pattern_is_match(pat.as_str(), comps[i].as_str());
                if hit {
                    let top_level = comps.len() == 1 && str_eq(comps[i].as_str(), item_basename);
                    if !top_level {
                        assert(pattern_matches(pat@, cs[i as int]) && !(cs[i as int] == basev
                            && cs.len() == 1));
                        assert(spec_pattern_hits(pats[k as int], pathv, basev));
                        return true;
                    }
                }
                i += 1;
            }
            assert(!spec_pattern_hits(pats[k as int], pathv, basev));
        }
        k += 1;
    }
    false
}

/// Parses the trimmed, non-blank, non-comment lines of an ignore file as
/// patterns, checking each against the regex compiler.  Fails exactly when
/// one of those lines is not an acceptable pattern, and names it.
pub fn parse_pattern_lines(text: &str) -> (r: Result<Vec<String>, IgnoreError>)
    ensures
        match r {
            Ok(v) => {
                &&& v.deep_view() == parsed_patterns(text@)
                &&& forall|j: int|
                    0 <= j < v.deep_view().len() ==> regex_valid(#[trigger] v.deep_view()[j])
            },
            Err(e) => e matches IgnoreError::InvalidPattern(p) && parsed_patterns(text@).contains(
                p@,
            ) && !regex_valid(p@),
        },
{
    let lines = split_str(text, '\n');
    let ghost linesv = lines.deep_view();
    let ghost trimmed = trimmed_lines(linesv);
    let mut out: Vec<String> = Vec::new();
    let mut i: usize = 0;
    while i < lines.len()
        invariant
            linesv == lines.deep_view(),
            trimmed == trimmed_lines(linesv),
            parsed_patterns(text@) == kept_lines(trimmed),
            linesv.len() == lines.len(),
            trimmed.len() == linesv.len(),
            0 <= i <= lines.len(),
            out.deep_view() == kept_lines(trimmed.take(i as int)),
            forall|j: int|
                0 <= j < out.deep_view().len() ==> regex_valid(#[trigger] out.deep_view()[j]),
        decreases lines.len() - i,
    {
        let ghost pre = trimmed.take(i as int);
        let ghost post = trimmed.take(i + 1int);
        proof {
            assert(post.drop_last() =~= pre);
            assert(post.last() == trimmed[i as int]);
        }
        let t = trim_str(lines[i].as_str());
        assert(t@ == trimmed[i as int]);
        let keep = t.as_str().unicode_len() > 0 && t.as_str().get_char(0) != '#';
        assert(keep == keep_line(trimmed[i as int]));
        if keep {
            match compile_check(t.as_str()) {
                Ok(_) => {
                    let ghost before = out.deep_view();
                    let ghost tv = t@;
                    out.push(t);
                    assert(out.deep_view() =~= before.push(tv));
                },
                Err(_) => {
                    proof {
                        lemma_kept_lines_contains(trimmed, i as int);
                    }
                    return Err(IgnoreError::InvalidPattern(t));
                },
            }
        }
        assert(out.deep_view() =~= kept_lines(post));
        i += 1;
    }
    assert(trimmed.take(lines.len() as int) =~= trimmed);
    Ok(out)
}

/// The built-in default patterns, each checked against the regex compiler.
pub fn get_default_ignore_patterns() -> (r: Result<Vec<String>, IgnoreError>)
    ensures
        match r {
            Ok(v) => {
                &&& v.deep_view() == default_patterns()
                &&& forall|j: int|
                    0 <= j < v.deep_view().len() ==> regex_valid(#[trigger] v.deep_view()[j])
            },
            Err(e) => e matches IgnoreError::InvalidPattern(p) && default_patterns().contains(p@)
                && !regex_valid(p@),
        },
{
    let mut texts: Vec<String> = Vec::new();
    texts.push(String::from_str("\\.git"));
    texts.push(String::from_str("CVS"));
    texts.push(String::from_str("\\.svn"));
    texts.push(String::from_str("RCS"));
    texts.push(String::from_str("_darcs"));
    texts.push(String::from_str(".*~"));
    texts.push(String::from_str("#.*#"));
    texts.push(String::from_str("\\.#.+"));
    texts.push(String::from_str(".+,v"));
    texts.push(String::from_str("\\.stow-local-ignore"));
    texts.push(String::from_str("\\.gitignore"));
    texts.push(String::from_str("\\.cvsignore"));
    texts.push(String::from_str("^/README.*"));
    texts.push(String::from_str("^/LICENSE.*"));
    texts.push(String::from_str("^/COPYING$"));
    assert(texts.deep_view() =~= default_patterns());
    let mut i: usize = 0;
    while i < texts.len()
        invariant
            texts.deep_view() == default_patterns(),
            texts.len() == default_patterns().len(),
            0 <= i <= texts.len(),
            forall|j: int| 0 <= j < i ==> regex_valid(#[trigger] texts.deep_view()[j]),
        decreases texts.len() - i,
    {
        match compile_check(texts[i].as_str()) {
            Ok(_) => {
                assert(regex_valid(texts.deep_view()[i as int]));
            },
            Err(_) => {
                let bad = texts[i].clone();
                assert(default_patterns().contains(bad@)) by {
                    assert(default_patterns()[i as int] == bad@);
                }
                return Err(IgnoreError::InvalidPattern(bad));
            },
        }
        i += 1;
    }
    Ok(texts)
}

impl IgnorePatterns {
    /// The pattern texts, in order.
    pub closed spec fn pats(&self) -> Seq<Seq<char>> {
        self.patterns.deep_view()
    }

    /// The pattern texts, in order.
    pub fn iter_patterns(&self) -> (r: &Vec<String>)
        ensures
            r.deep_view() == self.pats(),
    {
        &self.patterns
    }

    /// Selects and parses the active pattern source for one package.
    /// The arguments hold the text of `.stow-local-ignore` under the
    /// package and of `.stow-global-ignore` under the user's home, where
    /// each exists as a regular file.  The local file wins over the global
    /// one, and the built-in defaults apply only when neither exists.
    /// Failure names a pattern of the selected source that the regex
    /// compiler rejects, so a source whose patterns all compile is owed
    /// success.
    pub fn load(local_ignore: Option<&str>, global_ignore: Option<&str>) -> (r: Result<
        IgnorePatterns,
        IgnoreError,
    >)
        ensures
            match r {
                Ok(set) => {
                    &&& match local_ignore {
                        Some(text) => set.pats() == parsed_patterns(text@),
                        None => match global_ignore {
                            Some(text) => set.pats() == parsed_patterns(text@),
                            None => set.pats() == default_patterns(),
                        },
                    }
                    &&& forall|j: int|
                        0 <= j < set.pats().len() ==> regex_valid(#[trigger] set.pats()[j])
                },
                Err(e) => e matches IgnoreError::InvalidPattern(p) && !regex_valid(p@) && (
                match local_ignore {
                    Some(text) => parsed_patterns(text@).contains(p@),
                    None => match global_ignore {
                        Some(text) => parsed_patterns(text@).contains(p@),
                        None => default_patterns().contains(p@),
                    },
                }),
            },
    {
        match local_ignore {
            Some(text) => {
                let patterns = parse_pattern_lines(text)?;
                Ok(IgnorePatterns { patterns })
            },
            None => match global_ignore {
                Some(text) => {
                    let patterns = parse_pattern_lines(text)?;
                    Ok(IgnorePatterns { patterns })
                },
                None => {
                    let patterns = get_default_ignore_patterns()?;
                    Ok(IgnorePatterns { patterns })
                },
            },
        }
    }

    /// A set built from already-parsed pattern texts.
    pub fn from_pattern_texts(patterns: Vec<String>) -> (r: IgnorePatterns)
        ensures
            r.pats() == patterns.deep_view(),
    {
        IgnorePatterns { patterns }
    }
}

/// The fields of an item that ignore classification reads.
#[derive(Debug)]
pub struct MinimalStowableItem {
    pub package_relative_path: String,
    pub basename: String,
}

impl Clone for MinimalStowableItem {
    fn clone(&self) -> (r: Self)
        ensures
            r == *self,
    {
        MinimalStowableItem {
            package_relative_path: self.package_relative_path.clone(),
            basename: self.basename.clone(),
        }
    }
}

/// Whether the classifier drops this item under the given pattern texts.
pub open spec fn spec_item_ignored(pats: Seq<Seq<char>>, it: MinimalStowableItem) -> bool {
    spec_is_ignored(pats, seq!['/'] + it.package_relative_path@, it.basename@)
}

/// The items the pattern set does not ignore, in order.
pub open spec fn spec_kept_items(
    pats: Seq<Seq<char>>,
    items: Seq<MinimalStowableItem>,
) -> Seq<MinimalStowableItem>
    decreases items.len(),
{
    if items.len() == 0 {
        Seq::<MinimalStowableItem>::empty()
    } else {
        let prev = spec_kept_items(pats, items.drop_last());
        if spec_item_ignored(pats, items.last()) {
            prev
        } else {
            prev.push(items.last())
        }
    }
}

/// Keeps exactly the items the pattern set does not ignore, in order.
pub fn filter_items(raw_items: Vec<MinimalStowableItem>, ignore_patterns: &IgnorePatterns) -> (r:
    Vec<MinimalStowableItem>)
    ensures
        r@ == spec_kept_items(ignore_patterns.pats(), raw_items@),
{
    let ghost pats = ignore_patterns.pats();
    let mut out: Vec<MinimalStowableItem> = Vec::new();
    let mut i: usize = 0;
    let ghost rawv = raw_items@;
    while i < raw_items.len()
        invariant
            pats == ignore_patterns.pats(),
            rawv == raw_items@,
            rawv.len() == raw_items.len(),
            0 <= i <= raw_items.len(),
            out@ == spec_kept_items(pats, rawv.take(i as int)),
        decreases raw_items.len() - i,
    {
        let ghost pre = rawv.take(i as int);
        let ghost post = rawv.take(i + 1int);
        proof {
            assert(post.drop_last() =~= pre);
            assert(post.last() == rawv[i as int]);
        }
        let it = raw_items[i].clone();
        let mut slash_path = String::new();
        crate::strutil::push_char_impl(&mut slash_path, '/');
        slash_path.append(it.package_relative_path.as_str());
        assert(slash_path@ =~= seq!['/'] + it.package_relative_path@);
        let ignored = is_ignored(slash_path.as_str(), it.basename.as_str(), ignore_patterns);
        if !ignored {
            out.push(it);
        }
        assert(out@ =~= spec_kept_items(pats, post));
        i += 1;
    }
    assert(rawv.take(raw_items.len() as int) =~= rawv);
    out
}

} // verus!
