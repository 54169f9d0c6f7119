//! Character-level string helpers: equality, prefix tests, splitting on a
//! separator character, and concatenation, each with an exact contract.

use vstd::prelude::*;

verus! {

/// True if the two string slices hold the same characters.
pub fn str_eq(a: &str, b: &str) -> (r: bool)
    ensures
        r == (a@ == b@),
{
    let alen = a.unicode_len();
    let blen = b.unicode_len();
    if alen != blen {
        assert(a@ != b@) by {
            assert(a@.len() != b@.len());
        }
        return false;
    }
    let mut i: usize = 0;
    while i < alen
        invariant
            alen == a@.len(),
            alen == b@.len(),
            0 <= i <= alen,
            forall|j: int| 0 <= j < i ==> a@[j] == b@[j],
        decreases alen - i,
    {
        if a.get_char(i) != b.get_char(i) {
            return false;
        }
        i += 1;
    }
    assert(a@ =~= b@);
    true
}

/// True if `p` is a prefix of `s`.
pub fn str_has_prefix(s: &str, p: &str) -> (r: bool)
    ensures
        r == (p@.len() <= s@.len() && s@.subrange(0, p@.len() as int) == p@),
{
    let slen = s.unicode_len();
    let plen = p.unicode_len();
    if plen > slen {
        return false;
    }
    let mut i: usize = 0;
    while i < plen
        invariant
            slen == s@.len(),
            plen == p@.len(),
            plen <= slen,
            0 <= i <= plen,
            forall|j: int| 0 <= j < i ==> s@[j] == p@[j],
        decreases plen - i,
    {
        if s.get_char(i) != p.get_char(i) {
            assert(s@.subrange(0, p@.len() as int)[i as int] != p@[i as int]);
            return false;
        }
        i += 1;
    }
    assert(s@.subrange(0, p@.len() as int) =~= p@);
    true
}

/// True if `c` occurs in `s`.
pub fn str_contains_char(s: &str, c: char) -> (r: bool)
    ensures
        r == s@.contains(c),
{
    let slen = s.unicode_len();
    let mut i: usize = 0;
    while i < slen
        invariant
            slen == s@.len(),
            0 <= i <= slen,
            forall|j: int| 0 <= j < i ==> s@[j] != c,
        decreases slen - i,
    {
        if s.get_char(i) == c {
            assert(s@[i as int] == c);
            return true;
        }
        i += 1;
    }
    assert(forall|j: int| 0 <= j < s@.len() ==> s@[j] != c);
    false
}

/// Splitting a character sequence on a separator, processed from the left:
/// the pair of the finished segments and the segment still being read.
pub open spec fn split_state(s: Seq<char>, sep: char) -> (Seq<Seq<char>>, Seq<char>)
    decreases s.len(),
{
    if s.len() == 0 {
        (Seq::<Seq<char>>::empty(), Seq::<char>::empty())
    } else {
        let prev = split_state(s.drop_last(), sep);
        if s.last() == sep {
            (prev.0.push(prev.1), Seq::<char>::empty())
        } else {
            (prev.0, prev.1.push(s.last()))
        }
    }
}

/// The segments of `s` split on `sep`, empty segments included, so the
/// result always holds at least one segment.
pub open spec fn split_on(s: Seq<char>, sep: char) -> Seq<Seq<char>> {
    split_state(s, sep).0.push(split_state(s, sep).1)
}

/// Appending separator-free text extends the segment being read and
/// finishes none.
pub proof fn lemma_split_state_app_no_sep(s: Seq<char>, t: Seq<char>, sep: char)
    requires
        forall|i: int| 0 <= i < t.len() ==> t[i] != sep,
    ensures
        split_state(s + t, sep).0 == split_state(s, sep).0,
        split_state(s + t, sep).1 == split_state(s, sep).1 + t,
    decreases t.len(),
{
    if t.len() == 0 {
        assert(s + t =~= s);
        assert(split_state(s, sep).1 + t =~= split_state(s, sep).1);
    } else {
        let t0 = t.drop_last();
        lemma_split_state_app_no_sep(s, t0, sep);
        assert((s + t).drop_last() =~= s + t0);
        assert((s + t).last() == t.last());
        assert((split_state(s, sep).1 + t0).push(t.last()) =~= split_state(s, sep).1 + t);
    }
}

/// Appending the separator finishes the segment being read.
pub proof fn lemma_split_state_sep(s: Seq<char>, sep: char)
    ensures
        split_state(s.push(sep), sep).0 == split_state(s, sep).0.push(split_state(s, sep).1),
        split_state(s.push(sep), sep).1 == Seq::<char>::empty(),
{
    assert(s.push(sep).drop_last() =~= s);
}

/// A leading separator contributes one finished empty segment.
pub proof fn lemma_split_state_prepend_sep(s: Seq<char>, sep: char)
    ensures
        split_state(seq![sep] + s, sep).0 == seq![Seq::<char>::empty()] + split_state(s, sep).0,
        split_state(seq![sep] + s, sep).1 == split_state(s, sep).1,
    decreases s.len(),
{
    if s.len() == 0 {
        reveal_with_fuel(split_state, 3);
        let whole = seq![sep] + s;
        assert(whole =~= seq![sep]);
        assert(whole.drop_last() =~= Seq::<char>::empty());
        assert(whole.last() == sep);
        assert(split_state(whole, sep).0 =~= seq![Seq::<char>::empty()] + split_state(s, sep).0);
    } else {
        let s0 = s.drop_last();
        lemma_split_state_prepend_sep(s0, sep);
        let whole = seq![sep] + s;
        assert(whole.drop_last() =~= seq![sep] + s0);
        assert(whole.last() == s.last());
        if s.last() == sep {
            assert(split_state(whole, sep).0 =~= seq![Seq::<char>::empty()] + split_state(
                s,
                sep,
            ).0);
        }
    }
}

/// Splits `s` on the separator character, keeping empty segments,
/// as `str::split` does.
pub fn split_str(s: &str, sep: char) -> (r: Vec<String>)
    ensures
        r.deep_view() == split_on(s@, sep),
        r.len() >= 1,
{
    let slen = s.unicode_len();
    let mut done: Vec<String> = Vec::new();
    let mut cur: String = String::new();
    let mut i: usize = 0;
    while i < slen
        invariant
            slen == s@.len(),
            0 <= i <= slen,
            (done.deep_view(), cur@) == split_state(s@.take(i as int), sep),
        decreases slen - i,
    {
        let c = s.get_char(i);
        let ghost pre = s@.take(i as int);
        let ghost post = s@.take(i + 1int);
        assert(post.drop_last() =~= pre);
        assert(post.last() == s@[i as int]);
        if c == sep {
            done.push(cur);
            cur = String::new();
        } else {
            push_char_impl(&mut cur, c);
        }
        assert(done.deep_view() =~= split_state(post, sep).0);
        i += 1;
    }
    assert(s@.take(slen as int) =~= s@);
    done.push(cur);
    assert(done.deep_view() =~= split_on(s@, sep));
    done
}

/// The Unicode white-space characters, the set `str::trim` removes and
/// the set trimmed from ignore-file lines.
pub open spec fn is_ws(c: char) -> bool {
    c == '\t' || c == '\n' || c == '\u{B}' || c == '\u{C}' || c == '\r' || c == ' ' || c
        == '\u{85}' || c == '\u{A0}' || c == '\u{1680}' || c == '\u{2000}' || c == '\u{2001}' || c
        == '\u{2002}' || c == '\u{2003}' || c == '\u{2004}' || c == '\u{2005}' || c == '\u{2006}'
        || c == '\u{2007}' || c == '\u{2008}' || c == '\u{2009}' || c == '\u{200A}' || c
        == '\u{2028}' || c == '\u{2029}' || c == '\u{202F}' || c == '\u{205F}' || c == '\u{3000}'
}

/// The sequence without its leading whitespace.
pub open spec fn trim_front(s: Seq<char>) -> Seq<char>
    decreases s.len(),
{
    if s.len() > 0 && is_ws(s[0]) {
        trim_front(s.drop_first())
    } else {
        s
    }
}

/// The sequence without its trailing whitespace.
pub open spec fn trim_back(s: Seq<char>) -> Seq<char>
    decreases s.len(),
{
    if s.len() > 0 && is_ws(s.last()) {
        trim_back(s.drop_last())
    } else {
        s
    }
}

/// The sequence without leading or trailing whitespace.
pub open spec fn trim_ws(s: Seq<char>) -> Seq<char> {
    trim_back(trim_front(s))
}

/// Whether the character is trimmed whitespace.
fn is_ws_char(c: char) -> (r: bool)
    ensures
        r == is_ws(c),
{
    c == '\t' || c == '\n' || c == '\u{B}' || c == '\u{C}' || c == '\r' || c == ' ' || c
        == '\u{85}' || c == '\u{A0}' || c == '\u{1680}' || c == '\u{2000}' || c == '\u{2001}' || c
        == '\u{2002}' || c == '\u{2003}' || c == '\u{2004}' || c == '\u{2005}' || c == '\u{2006}'
        || c == '\u{2007}' || c == '\u{2008}' || c == '\u{2009}' || c == '\u{200A}' || c
        == '\u{2028}' || c == '\u{2029}' || c == '\u{202F}' || c == '\u{205F}' || c == '\u{3000}'
}

/// Removes leading and trailing whitespace.
pub fn trim_str(s: &str) -> (r: String)
    ensures
        r@ == trim_ws(s@),
{
    let n = s.unicode_len();
    let mut a: usize = 0;
    assert(s@.skip(0) =~= s@);
    loop
        invariant
            n == s@.len(),
            0 <= a <= n,
            trim_front(s@) == trim_front(s@.skip(a as int)),
        ensures
            0 <= a <= n,
            trim_front(s@) == trim_front(s@.skip(a as int)),
            a == n || !is_ws(s@[a as int]),
        decreases n - a,
    {
        if a >= n {
            break;
        }
        if !is_ws_char(s.get_char(a)) {
            break;
        }
        assert(s@.skip(a as int).drop_first() =~= s@.skip(a + 1int));
        a += 1;
    }
    assert(trim_front(s@) == s@.skip(a as int)) by {
        if a < n {
            assert(s@.skip(a as int)[0] == s@[a as int]);
        } else {
            assert(s@.skip(a as int).len() == 0);
        }
    }
    let mut b: usize = n;
    assert(s@.skip(a as int) =~= s@.subrange(a as int, n as int));
    loop
        invariant
            n == s@.len(),
            a <= b <= n,
            trim_back(s@.skip(a as int)) == trim_back(s@.subrange(a as int, b as int)),
        ensures
            a <= b <= n,
            trim_back(s@.skip(a as int)) == trim_back(s@.subrange(a as int, b as int)),
            b == a || !is_ws(s@[b - 1]),
        decreases b,
    {
        if b <= a {
            break;
        }
        if !is_ws_char(s.get_char(b - 1)) {
            break;
        }
        assert(s@.subrange(a as int, b as int).drop_last() =~= s@.subrange(a as int, b - 1));
        assert(s@.subrange(a as int, b as int).last() == s@[b - 1]);
        b -= 1;
    }
    assert(trim_back(s@.skip(a as int)) == s@.subrange(a as int, b as int)) by {
        if b > a {
            assert(s@.subrange(a as int, b as int).last() == s@[b - 1]);
        } else {
            assert(s@.subrange(a as int, b as int).len() == 0);
        }
    }
    let out = s.substring_char(a, b);
    out.to_owned()
}

/// The character for one decimal digit.
pub open spec fn digit_char(d: nat) -> char {
    if d == 0 {
        '0'
    } else if d == 1 {
        '1'
    } else if d == 2 {
        '2'
    } else if d == 3 {
        '3'
    } else if d == 4 {
        '4'
    } else if d == 5 {
        '5'
    } else if d == 6 {
        '6'
    } else if d == 7 {
        '7'
    } else if d == 8 {
        '8'
    } else {
        '9'
    }
}

/// The decimal spelling of a natural number.
pub open spec fn dec_str(n: nat) -> Seq<char>
    decreases n,
{
    if n < 10 {
        seq![digit_char(n)]
    } else {
        dec_str(n / 10).push(digit_char(n % 10))
    }
}

/// The character for one decimal digit.
fn digit_char_of(d: u8) -> (r: char)
    requires
        d < 10,
    ensures
        r == digit_char(d as nat),
{
    if d == 0 {
        '0'
    } else if d == 1 {
        '1'
    } else if d == 2 {
        '2'
    } else if d == 3 {
        '3'
    } else if d == 4 {
        '4'
    } else if d == 5 {
        '5'
    } else if d == 6 {
        '6'
    } else if d == 7 {
        '7'
    } else if d == 8 {
        '8'
    } else {
        '9'
    }
}

/// Spells a byte-sized number in decimal.
pub fn u8_to_string(n: u8) -> (r: String)
    ensures
        r@ == dec_str(n as nat),
    decreases n,
{
    if n < 10 {
        let mut s = String::new();
        push_char_impl(&mut s, digit_char_of(n));
        assert(s@ =~= dec_str(n as nat));
        s
    } else {
        let mut s = u8_to_string(n / 10);
        push_char_impl(&mut s, digit_char_of(n % 10));
        s
    }
}

/// Appends one character to a string.
pub(crate) fn push_char_impl(s: &mut String, c: char)
    ensures
        final(s)@ == old(s)@.push(c),
{
    let tail = char_to_string(c);
    s.append(tail.as_str());
    assert(s@ =~= old(s)@.push(c));
}

/// Relies on `String::push` of std: appends exactly the given character.
#[verifier::external_body]
fn char_to_string(c: char) -> (r: String)
    ensures
        r@ == seq![c],
{
    let mut s = String::new();
    s.push(c);
    s
}

} // verus!

