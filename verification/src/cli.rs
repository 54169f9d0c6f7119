//! Command-line argument parsing.
//!
//! The grammar is folded over the tokens one at a time: long flags with or
//! without an attached `=value`, clusters of short flags (`-vvv`), value
//! flags whose value is the next token, `--` to end flag handling, and
//! positional package names.  The executable parser is proved to compute
//! exactly this fold.

use vstd::prelude::*;
use crate::strutil::str_eq;

verus! {

/// The parsed invocation.
#[derive(Debug)]
pub struct Args {
    /// Target directory for symlinks.
    pub target: Option<String>,
    /// Directory containing stow packages.
    pub dir: Option<String>,
    /// Stow the named packages (the default action).
    pub stow: bool,
    /// Delete the named packages from the target.
    pub delete: bool,
    /// Restow the named packages (delete, then stow).
    pub restow: bool,
    /// Adopt existing target files into the package.
    pub adopt: bool,
    /// Disable directory folding.
    pub no_folding: bool,
    /// Rewrite `dot-` prefixes in item names.
    pub dotfiles: bool,
    /// Override patterns for conflicting targets.
    pub override_conflicts: Vec<String>,
    /// Defer patterns for conflicting targets.
    pub defer_conflicts: Vec<String>,
    /// Extra ignore patterns for this invocation.
    pub ignore_patterns: Vec<String>,
    /// Plan only; perform no filesystem change.
    pub simulate: bool,
    /// Verbosity, as the count of `-v` occurrences.
    pub verbose: u8,
    /// The packages to process.
    pub packages: Vec<String>,
}

/// The mathematical image of an `Args` value.
pub ghost struct ArgsView {
    pub target: Option<Seq<char>>,
    pub dir: Option<Seq<char>>,
    pub stow: bool,
    pub delete: bool,
    pub restow: bool,
    pub adopt: bool,
    pub no_folding: bool,
    pub dotfiles: bool,
    pub override_conflicts: Seq<Seq<char>>,
    pub defer_conflicts: Seq<Seq<char>>,
    pub ignore_patterns: Seq<Seq<char>>,
    pub simulate: bool,
    pub verbose: int,
    pub packages: Seq<Seq<char>>,
}

impl View for Args {
    type V = ArgsView;

    open spec fn view(&self) -> ArgsView {
        ArgsView {
            target: match self.target {
                Some(ref s) => Some(s@),
                None => None,
            },
            dir: match self.dir {
                Some(ref s) => Some(s@),
                None => None,
            },
            stow: self.stow,
            delete: self.delete,
            restow: self.restow,
            adopt: self.adopt,
            no_folding: self.no_folding,
            dotfiles: self.dotfiles,
            override_conflicts: self.override_conflicts.deep_view(),
            defer_conflicts: self.defer_conflicts.deep_view(),
            ignore_patterns: self.ignore_patterns.deep_view(),
            simulate: self.simulate,
            verbose: self.verbose as int,
            packages: self.packages.deep_view(),
        }
    }
}

/// A value flag waiting for its value in the next token.
pub ghost enum Pending {
    Target,
    Dir,
    OverridePat,
    DeferPat,
    IgnorePat,
}

/// The parser's state after some prefix of the tokens.
pub ghost enum ParseSt {
    /// An unacceptable token was seen.
    Bad,
    /// Parsing goes on: the fields so far, a value flag waiting for its
    /// value, and whether `--` has ended flag handling.
    Going { args: ArgsView, pending: Option<Pending>, positional_only: bool },
}

/// The state before any token.
pub open spec fn parse_init() -> ParseSt {
    ParseSt::Going {
        args: ArgsView {
            target: None,
            dir: None,
            stow: false,
            delete: false,
            restow: false,
            adopt: false,
            no_folding: false,
            dotfiles: false,
            override_conflicts: Seq::<Seq<char>>::empty(),
            defer_conflicts: Seq::<Seq<char>>::empty(),
            ignore_patterns: Seq::<Seq<char>>::empty(),
            simulate: false,
            verbose: 0,
            packages: Seq::<Seq<char>>::empty(),
        },
        pending: None,
        positional_only: false,
    }
}

/// The token split at its first `=`, if any.
pub open spec fn split_first_eq(s: Seq<char>) -> (Seq<char>, Option<Seq<char>>)
    decreases s.len(),
{
    if s.len() == 0 {
        (s, None)
    } else if s[0] == '=' {
        (Seq::<char>::empty(), Some(s.drop_first()))
    } else {
        let rest = split_first_eq(s.drop_first());
        (seq![s[0]] + rest.0, rest.1)
    }
}

/// Receiving the value a pending flag was waiting for.
pub open spec fn apply_pending(a: ArgsView, p: Pending, v: Seq<char>) -> ArgsView {
    match p {
        Pending::Target => ArgsView { target: Some(v), ..a },
        Pending::Dir => ArgsView { dir: Some(v), ..a },
        Pending::OverridePat => ArgsView { override_conflicts: a.override_conflicts.push(v), ..a },
        Pending::DeferPat => ArgsView { defer_conflicts: a.defer_conflicts.push(v), ..a },
        Pending::IgnorePat => ArgsView { ignore_patterns: a.ignore_patterns.push(v), ..a },
    }
}

/// One more `-v`, saturating at the field's width.
pub open spec fn bump_verbose(a: ArgsView) -> ArgsView {
    if a.verbose < 255 {
        ArgsView { verbose: a.verbose + 1, ..a }
    } else {
        a
    }
}

/// A long flag, with its attached value if `=` was present.
pub open spec fn long_step(a: ArgsView, name: Seq<char>, value: Option<Seq<char>>) -> ParseSt {
    if name == "target"@ {
        match value {
            Some(v) => ParseSt::Going {
                args: ArgsView { target: Some(v), ..a },
                pending: None,
                positional_only: false,
            },
            None => ParseSt::Going { args: a, pending: Some(Pending::Target), positional_only: false },
        }
    } else if name == "dir"@ {
        match value {
            Some(v) => ParseSt::Going {
                args: ArgsView { dir: Some(v), ..a },
                pending: None,
                positional_only: false,
            },
            None => ParseSt::Going { args: a, pending: Some(Pending::Dir), positional_only: false },
        }
    } else if name == "override"@ {
        match value {
            Some(v) => ParseSt::Going {
                args: ArgsView { override_conflicts: a.override_conflicts.push(v), ..a },
                pending: None,
                positional_only: false,
            },
            None => ParseSt::Going {
                args: a,
                pending: Some(Pending::OverridePat),
                positional_only: false,
            },
        }
    } else if name == "defer"@ {
        match value {
            Some(v) => ParseSt::Going {
                args: ArgsView { defer_conflicts: a.defer_conflicts.push(v), ..a },
                pending: None,
                positional_only: false,
            },
            None => ParseSt::Going {
                args: a,
                pending: Some(Pending::DeferPat),
                positional_only: false,
            },
        }
    } else if name == "ignore"@ {
        match value {
            Some(v) => ParseSt::Going {
                args: ArgsView { ignore_patterns: a.ignore_patterns.push(v), ..a },
                pending: None,
                positional_only: false,
            },
            None => ParseSt::Going {
                args: a,
                pending: Some(Pending::IgnorePat),
                positional_only: false,
            },
        }
    } else if value is Some {
        ParseSt::Bad
    } else if name == "stow"@ {
        ParseSt::Going { args: ArgsView { stow: true, ..a }, pending: None, positional_only: false }
    } else if name == "delete"@ {
        ParseSt::Going {
            args: ArgsView { delete: true, ..a },
            pending: None,
            positional_only: false,
        }
    } else if name == "restow"@ {
        ParseSt::Going {
            args: ArgsView { restow: true, ..a },
            pending: None,
            positional_only: false,
        }
    } else if name == "adopt"@ {
        ParseSt::Going {
            args: ArgsView { adopt: true, ..a },
            pending: None,
            positional_only: false,
        }
    } else if name == "no-folding"@ {
        ParseSt::Going {
            args: ArgsView { no_folding: true, ..a },
            pending: None,
            positional_only: false,
        }
    } else if name == "dotfiles"@ {
        ParseSt::Going {
            args: ArgsView { dotfiles: true, ..a },
            pending: None,
            positional_only: false,
        }
    } else if name == "simulate"@ || name == "no"@ {
        ParseSt::Going {
            args: ArgsView { simulate: true, ..a },
            pending: None,
            positional_only: false,
        }
    } else if name == "verbose"@ {
        ParseSt::Going { args: bump_verbose(a), pending: None, positional_only: false }
    } else {
        ParseSt::Bad
    }
}

/// A cluster of short flags, processed left to right.  A value flag may
/// stand only at the end of the cluster and leaves its value pending.
pub open spec fn shorts_step(a: ArgsView, cs: Seq<char>) -> ParseSt
    decreases cs.len(),
{
    if cs.len() == 0 {
        ParseSt::Going { args: a, pending: None, positional_only: false }
    } else if cs[0] == 'v' {
        shorts_step(bump_verbose(a), cs.drop_first())
    } else if cs[0] == 'S' {
        shorts_step(ArgsView { stow: true, ..a }, cs.drop_first())
    } else if cs[0] == 'D' {
        shorts_step(ArgsView { delete: true, ..a }, cs.drop_first())
    } else if cs[0] == 'R' {
        shorts_step(ArgsView { restow: true, ..a }, cs.drop_first())
    } else if cs[0] == 'n' {
        shorts_step(ArgsView { simulate: true, ..a }, cs.drop_first())
    } else if cs[0] == 't' {
        if cs.len() == 1 {
            ParseSt::Going { args: a, pending: Some(Pending::Target), positional_only: false }
        } else {
            ParseSt::Bad
        }
    } else if cs[0] == 'd' {
        if cs.len() == 1 {
            ParseSt::Going { args: a, pending: Some(Pending::Dir), positional_only: false }
        } else {
            ParseSt::Bad
        }
    } else {
        ParseSt::Bad
    }
}

/// One token.
pub open spec fn token_step(st: ParseSt, tok: Seq<char>) -> ParseSt {
    match st {
        ParseSt::Bad => ParseSt::Bad,
        ParseSt::Going { args, pending, positional_only } => {
            match pending {
                Some(p) => ParseSt::Going {
                    args: apply_pending(args, p, tok),
                    pending: None,
                    positional_only,
                },
                None => {
                    if positional_only {
                        ParseSt::Going {
                            args: ArgsView { packages: args.packages.push(tok), ..args },
                            pending: None,
                            positional_only,
                        }
                    } else if tok == "--"@ {
                        ParseSt::Going { args, pending: None, positional_only: true }
                    } else if tok.len() >= 2 && tok[0] == '-' && tok[1] == '-' {
                        let rest = split_first_eq(tok.skip(2));
                        long_step(args, rest.0, rest.1)
                    } else if tok.len() >= 2 && tok[0] == '-' {
                        shorts_step(args, tok.skip(1))
                    } else {
                        ParseSt::Going {
                            args: ArgsView { packages: args.packages.push(tok), ..args },
                            pending: None,
                            positional_only,
                        }
                    }
                },
            }
        },
    }
}

/// The fold of the grammar over a token list.
pub open spec fn parse_fold(toks: Seq<Seq<char>>) -> ParseSt
    decreases toks.len(),
{
    if toks.len() == 0 {
        parse_init()
    } else {
        token_step(parse_fold(toks.drop_last()), toks.last())
    }
}

/// Whether the fold's end state yields a parsed invocation: no error, no
/// flag left waiting for a value, and at least one package named.
pub open spec fn parse_accepts(toks: Seq<Seq<char>>) -> bool {
    match parse_fold(toks) {
        ParseSt::Going { args, pending, .. } => pending is None && args.packages.len() >= 1,
        ParseSt::Bad => false,
    }
}

/// The parsed invocation of an accepted token list.
pub open spec fn parse_result(toks: Seq<Seq<char>>) -> ArgsView
    recommends
        parse_accepts(toks),
{
    parse_fold(toks)->Going_args
}

/// Once the fold has gone bad, it stays bad.
proof fn lemma_bad_stays(toks: Seq<Seq<char>>, j: int)
    requires
        0 <= j <= toks.len(),
        parse_fold(toks.take(j)) is Bad,
    ensures
        parse_fold(toks) is Bad,
    decreases toks.len() - j,
{
    if j < toks.len() {
        assert(toks.take(j + 1).drop_last() =~= toks.take(j));
        assert(toks.take(j + 1).last() == toks[j]);
        lemma_bad_stays(toks, j + 1);
    } else {
        assert(toks.take(j) =~= toks);
    }
}

/// The exec side of a waiting value flag.
enum PendingExec {
    Target,
    Dir,
    OverridePat,
    DeferPat,
    IgnorePat,
}

impl PendingExec {
    /// The ghost flag this stands for.
    spec fn view(&self) -> Pending {
        match self {
            PendingExec::Target => Pending::Target,
            PendingExec::Dir => Pending::Dir,
            PendingExec::OverridePat => Pending::OverridePat,
            PendingExec::DeferPat => Pending::DeferPat,
            PendingExec::IgnorePat => Pending::IgnorePat,
        }
    }
}

impl Args {
    /// An invocation with nothing set.
    fn empty() -> (r: Args)
        ensures
            (ParseSt::Going { args: r@, pending: None, positional_only: false }) == parse_init(),
    {
        let r = Args {
            target: None,
            dir: None,
            stow: false,
            delete: false,
            restow: false,
            adopt: false,
            no_folding: false,
            dotfiles: false,
            override_conflicts: Vec::new(),
            defer_conflicts: Vec::new(),
            ignore_patterns: Vec::new(),
            simulate: false,
            verbose: 0,
            packages: Vec::new(),
        };
        proof {
            assert(r.override_conflicts.deep_view() =~= Seq::<Seq<char>>::empty());
            assert(r.defer_conflicts.deep_view() =~= Seq::<Seq<char>>::empty());
            assert(r.ignore_patterns.deep_view() =~= Seq::<Seq<char>>::empty());
            assert(r.packages.deep_view() =~= Seq::<Seq<char>>::empty());
        }
        r
    }

    /// Parses a full token list, program name first, by the grammar's
    /// fold.  Fails exactly when the fold rejects a token, a value flag is
    /// left without its value, or no package is named.
    pub fn parse_from(tokens: Vec<String>) -> (r: Result<Args, crate::error::RustowError>)
        ensures
            tokens@.len() >= 1 ==> {
                let toks = tokens.deep_view().drop_first();
                match r {
                    Ok(a) => parse_accepts(toks) && a@ == parse_result(toks),
                    Err(_) => !parse_accepts(toks),
                }
            },
            tokens@.len() == 0 ==> r is Err,
    {
        if tokens.len() == 0 {
            return Err(crate::error::RustowError::Cli(String::from_str("no arguments")));
        }
        let ghost toks = tokens.deep_view().drop_first();
        let mut args = Args::empty();
        let mut pending: Option<PendingExec> = None;
        let mut positional_only: bool = false;
        let mut i: usize = 1;
        while i < tokens.len()
            invariant
                toks == tokens.deep_view().drop_first(),
                toks.len() == tokens@.len() - 1,
                1 <= i <= tokens@.len(),
                parse_fold(toks.take(i - 1)) == (ParseSt::Going {
                    args: args@,
                    pending: match pending {
                        Some(ref p) => Some(p.view()),
                        None => None,
                    },
                    positional_only,
                }),
            decreases tokens@.len() - i,
        {
            let ghost pre = toks.take(i - 1);
            let ghost post = toks.take(i as int);
            proof {
                assert(post.drop_last() =~= pre);
                assert(post.last() == toks[i - 1]);
                assert(toks[i - 1] == tokens.deep_view()[i as int]);
            }
            let tok = &tokens[i];
            let bad = Args::consume_token(&mut args, &mut pending, &mut positional_only, tok);
            if bad {
                proof {
                    lemma_bad_stays(toks, i as int);
                }
                return Err(crate::error::RustowError::Cli(String::from_str(
                    "unexpected argument",
                )));
            }
            i += 1;
        }
        assert(toks.take(tokens@.len() - 1) =~= toks);
        if pending.is_some() {
            return Err(crate::error::RustowError::Cli(String::from_str(
                "a flag is missing its value",
            )));
        }
        if args.packages.len() == 0 {
            assert(args@.packages.len() == 0);
            return Err(crate::error::RustowError::Cli(String::from_str("no package named")));
        }
        assert(args@.packages.len() >= 1) by {
            assert(args@.packages.len() == args.packages@.len());
        }
        Ok(args)
    }

    /// Feeds one token to the parser state; true means the grammar
    /// rejected it.
    fn consume_token(
        args: &mut Args,
        pending: &mut Option<PendingExec>,
        positional_only: &mut bool,
        tok: &String,
    ) -> (bad: bool)
        ensures
            ({
                let st0 = ParseSt::Going {
                    args: old(args)@,
                    pending: match *old(pending) {
                        Some(ref p) => Some(p.view()),
                        None => None,
                    },
                    positional_only: *old(positional_only),
                };
                let st1 = token_step(st0, tok@);
                if bad {
                    st1 is Bad
                } else {
                    st1 == ParseSt::Going {
                        args: final(args)@,
                        pending: match *final(pending) {
                            Some(ref p) => Some(p.view()),
                            None => None,
                        },
                        positional_only: *final(positional_only),
                    }
                }
            }),
    {
        if let Some(p) = pending.take() {
            match p {
                PendingExec::Target => {
                    args.target = Some(tok.clone());
                },
                PendingExec::Dir => {
                    args.dir = Some(tok.clone());
                },
                PendingExec::OverridePat => {
                    let ghost before = args.override_conflicts.deep_view();
                    args.override_conflicts.push(tok.clone());
                    assert(args.override_conflicts.deep_view() =~= before.push(tok@));
                },
                PendingExec::DeferPat => {
                    let ghost before = args.defer_conflicts.deep_view();
                    args.defer_conflicts.push(tok.clone());
                    assert(args.defer_conflicts.deep_view() =~= before.push(tok@));
                },
                PendingExec::IgnorePat => {
                    let ghost before = args.ignore_patterns.deep_view();
                    args.ignore_patterns.push(tok.clone());
                    assert(args.ignore_patterns.deep_view() =~= before.push(tok@));
                },
            }
            return false;
        }
        if *positional_only {
            let ghost before = args.packages.deep_view();
            args.packages.push(tok.clone());
            assert(args.packages.deep_view() =~= before.push(tok@));
            return false;
        }
        if str_eq(tok.as_str(), "--") {
            *positional_only = true;
            return false;
        }
        let n = tok.as_str().unicode_len();
        if n >= 2 && tok.as_str().get_char(0) == '-' && tok.as_str().get_char(1) == '-' {
            let rest = tok.as_str().substring_char(2, n);
            assert(rest@ =~= tok@.skip(2));
            return Args::consume_long(args, pending, rest);
        }
        if n >= 2 && tok.as_str().get_char(0) == '-' {
            let rest = tok.as_str().substring_char(1, n);
            assert(rest@ =~= tok@.skip(1));
            return Args::consume_shorts(args, pending, rest);
        }
        let ghost before = args.packages.deep_view();
        args.packages.push(tok.clone());
        assert(args.packages.deep_view() =~= before.push(tok@));
        false
    }

    /// A long flag token, already stripped of its `--`.
    fn consume_long(args: &mut Args, pending: &mut Option<PendingExec>, rest: &str) -> (bad: bool)
        requires
            *old(pending) is None,
        ensures
            ({
                let st1 = long_step(
                    old(args)@,
                    split_first_eq(rest@).0,
                    split_first_eq(rest@).1,
                );
                if bad {
                    st1 is Bad
                } else {
                    st1 == ParseSt::Going {
                        args: final(args)@,
                        pending: match *final(pending) {
                            Some(ref p) => Some(p.view()),
                            None => None,
                        },
                        positional_only: false,
                    }
                }
            }),
    {
        let n = rest.unicode_len();
        let mut eq_at: usize = n;
        let mut j: usize = 0;
        loop
            invariant
                n == rest@.len(),
                0 <= j <= n,
                forall|q: int| 0 <= q < j ==> rest@[q] != '=',
            ensures
                0 <= j <= n,
                forall|q: int| 0 <= q < j ==> rest@[q] != '=',
                j == n || rest@[j as int] == '=',
            decreases n - j,
        {
            if j >= n {
                break;
            }
            if rest.get_char(j) == '=' {
                break;
            }
            j += 1;
        }
        let name = rest.substring_char(0, j);
        let value: Option<String> = if j < n {
            Some(rest.substring_char(j + 1, n).to_owned())
        } else {
            None
        };
        proof {
            lemma_split_first_eq(rest@, j as int);
            assert(name@ =~= rest@.take(j as int));
            if j < n {
                assert(rest@.subrange(j + 1, n as int) =~= rest@.skip(j + 1));
            }
        }
        Args::apply_long(args, pending, name, value)
    }

    /// Applies a named long flag with its attached value, if any.
    #[verifier::spinoff_prover]
    #[verifier::rlimit(60)]
    fn apply_long(
        args: &mut Args,
        pending: &mut Option<PendingExec>,
        name: &str,
        value: Option<String>,
    ) -> (bad: bool)
        requires
            *old(pending) is None,
        ensures
            ({
                let st1 = long_step(
                    old(args)@,
                    name@,
                    match value {
                        Some(ref v) => Some(v@),
                        None => None,
                    },
                );
                if bad {
                    st1 is Bad
                } else {
                    st1 == ParseSt::Going {
                        args: final(args)@,
                        pending: match *final(pending) {
                            Some(ref p) => Some(p.view()),
                            None => None,
                        },
                        positional_only: false,
                    }
                }
            }),
    {
        if str_eq(name, "target") {
            match value {
                Some(v) => {
                    args.target = Some(v);
                },
                None => {
                    *pending = Some(PendingExec::Target);
                },
            }
            return false;
        }
        if str_eq(name, "dir") {
            match value {
                Some(v) => {
                    args.dir = Some(v);
                },
                None => {
                    *pending = Some(PendingExec::Dir);
                },
            }
            return false;
        }
        if str_eq(name, "override") {
            match value {
                Some(v) => {
                    let ghost before = args.override_conflicts.deep_view();
                    let ghost vv = v@;
                    args.override_conflicts.push(v);
                    assert(args.override_conflicts.deep_view() =~= before.push(vv));
                },
                None => {
                    *pending = Some(PendingExec::OverridePat);
                },
            }
            return false;
        }
        if str_eq(name, "defer") {
            match value {
                Some(v) => {
                    let ghost before = args.defer_conflicts.deep_view();
                    let ghost vv = v@;
                    args.defer_conflicts.push(v);
                    assert(args.defer_conflicts.deep_view() =~= before.push(vv));
                },
                None => {
                    *pending = Some(PendingExec::DeferPat);
                },
            }
            return false;
        }
        if str_eq(name, "ignore") {
            match value {
                Some(v) => {
                    let ghost before = args.ignore_patterns.deep_view();
                    let ghost vv = v@;
                    args.ignore_patterns.push(v);
                    assert(args.ignore_patterns.deep_view() =~= before.push(vv));
                },
                None => {
                    *pending = Some(PendingExec::IgnorePat);
                },
            }
            return false;
        }
        if value.is_some() {
            return true;
        }
        if str_eq(name, "stow") {
            args.stow = true;
            return false;
        }
        if str_eq(name, "delete") {
            args.delete = true;
            return false;
        }
        if str_eq(name, "restow") {
            args.restow = true;
            return false;
        }
        if str_eq(name, "adopt") {
            args.adopt = true;
            return false;
        }
        if str_eq(name, "no-folding") {
            args.no_folding = true;
            return false;
        }
        if str_eq(name, "dotfiles") {
            args.dotfiles = true;
            return false;
        }
        if str_eq(name, "simulate") || str_eq(name, "no") {
            args.simulate = true;
            return false;
        }
        if str_eq(name, "verbose") {
            if args.verbose < 255 {
                args.verbose = args.verbose + 1;
            }
            return false;
        }
        true
    }

    /// A cluster of short flags, already stripped of its `-`.
    fn consume_shorts(args: &mut Args, pending: &mut Option<PendingExec>, rest: &str) -> (bad:
        bool)
        requires
            *old(pending) is None,
        ensures
            ({
                let st1 = shorts_step(old(args)@, rest@);
                if bad {
                    st1 is Bad
                } else {
                    st1 == ParseSt::Going {
                        args: final(args)@,
                        pending: match *final(pending) {
                            Some(ref p) => Some(p.view()),
                            None => None,
                        },
                        positional_only: false,
                    }
                }
            }),
    {
        let n = rest.unicode_len();
        let ghost whole = rest@;
        let ghost args0 = old(args)@;
        let mut j: usize = 0;
        assert(whole.skip(0) =~= whole);
        while j < n
            invariant
                n == rest@.len(),
                whole == rest@,
                args0 == old(args)@,
                0 <= j <= n,
                *pending is None,
                shorts_step(args0, whole) == shorts_step(args@, whole.skip(j as int)),
            decreases n - j,
        {
            let c = rest.get_char(j);
            let ghost remaining = whole.skip(j as int);
            proof {
                assert(remaining.len() > 0);
                assert(remaining[0] == whole[j as int]);
                assert(remaining.drop_first() =~= whole.skip(j + 1int));
            }
            let ghost args_pre = args@;
            if c == 'v' {
                if args.verbose < 255 {
                    args.verbose = args.verbose + 1;
                }
                assert(args@ == bump_verbose(args_pre));
            } else if c == 'S' {
                args.stow = true;
                assert(args@ == (ArgsView { stow: true, ..args_pre }));
            } else if c == 'D' {
                args.delete = true;
                assert(args@ == (ArgsView { delete: true, ..args_pre }));
            } else if c == 'R' {
                args.restow = true;
                assert(args@ == (ArgsView { restow: true, ..args_pre }));
            } else if c == 'n' {
                args.simulate = true;
                assert(args@ == (ArgsView { simulate: true, ..args_pre }));
            } else if c == 't' {
                if j + 1 == n {
                    *pending = Some(PendingExec::Target);
                    assert(whole.skip(j + 1int).len() == 0);
                    assert(shorts_step(args@, remaining) == (ParseSt::Going {
                        args: args@,
                        pending: Some(Pending::Target),
                        positional_only: false,
                    }));
                    return false;
                } else {
                    assert(shorts_step(args@, remaining) is Bad);
                    return true;
                }
            } else if c == 'd' {
                if j + 1 == n {
                    *pending = Some(PendingExec::Dir);
                    assert(whole.skip(j + 1int).len() == 0);
                    assert(shorts_step(args@, remaining) == (ParseSt::Going {
                        args: args@,
                        pending: Some(Pending::Dir),
                        positional_only: false,
                    }));
                    return false;
                } else {
                    assert(shorts_step(args@, remaining) is Bad);
                    return true;
                }
            } else {
                assert(shorts_step(args@, remaining) is Bad);
                return true;
            }
            assert(shorts_step(args_pre, remaining) == shorts_step(args@, whole.skip(j + 1int)));
            j += 1;
        }
        assert(whole.skip(n as int).len() == 0);
        false
    }
}

/// The split at the first `=` is the text before the first `=` and the
/// text after it.
proof fn lemma_split_first_eq(s: Seq<char>, j: int)
    requires
        0 <= j <= s.len(),
        forall|q: int| 0 <= q < j ==> s[q] != '=',
        j < s.len() ==> s[j] == '=',
    ensures
        split_first_eq(s).0 == s.take(j),
        split_first_eq(s).1 == if j < s.len() {
            Some(s.skip(j + 1))
        } else {
            None::<Seq<char>>
        },
    decreases s.len(),
{
    if s.len() == 0 {
        assert(s.take(0) =~= s);
    } else if j == 0 {
        assert(s.take(0) =~= Seq::<char>::empty());
        assert(s.drop_first() =~= s.skip(1));
    } else {
        let t = s.drop_first();
        assert(forall|q: int| 0 <= q < j - 1 ==> t[q] != '=');
        lemma_split_first_eq(t, j - 1);
        assert(seq![s[0]] + t.take(j - 1) =~= s.take(j));
        if j < s.len() {
            assert(t.skip(j) =~= s.skip(j + 1));
        }
    }
}

} // verus!
