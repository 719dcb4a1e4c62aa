//! Dependency expressions.
//!
//! A relation field holds comma-separated OR-groups; each group holds
//! alternatives separated by a bar. An alternative names a package,
//! optionally qualified with a colon and an architecture, and may carry
//! parenthesized version constraints, a bracketed architecture filter
//! whose tokens may be negated, and angle-bracketed build-stage tags.

use vstd::prelude::*;

use crate::ParseError;
use crate::arch::Arch;
use crate::arch::arch_of_token;
use crate::arch::dedup;
use crate::arch::dedup_arches;
use crate::text::find_char;
use crate::text::find_char_from;
use crate::text::find_char_in;
use crate::text::find_char_within;
use crate::text::is_space;
use crate::text::lemma_find_char;
use crate::text::lemma_find_char_in;
use crate::text::lemma_skip_in;
use crate::text::skip_chars_in;
use crate::text::skip_in;
use crate::text::tokens_in;
use crate::text::tokens_into;
use crate::text::trim_substring;
use crate::text::trimmed;
use crate::version::Constraint;
use crate::version::ConstraintOperator;
use crate::version::ConstraintView;

verus! {

/// The mathematical image of one alternative.
#[verifier::ext_equal]
pub struct SingleDependencyView {
    pub package: Seq<char>,
    pub arch: Option<Arch>,
    pub version_constraints: Seq<ConstraintView>,
    pub arch_filter: Seq<Arch>,
    pub stage_filter: Seq<Seq<char>>,
}

/// One way to satisfy a dependency: a package, an optional architecture
/// qualifier, and the constraints and filters that must all hold at once.
/// The architecture filter is a set: parsing collapses repeated tags.
#[derive(Clone, Debug, PartialEq, Eq)]
pub struct SingleDependency {
    pub package: String,
    pub arch: Option<Arch>,
    pub version_constraints: Vec<Constraint>,
    pub arch_filter: Vec<Arch>,
    pub stage_filter: Vec<String>,
}

impl View for SingleDependency {
    type V = SingleDependencyView;

    open spec fn view(&self) -> SingleDependencyView {
        SingleDependencyView {
            package: self.package@,
            arch: self.arch,
            version_constraints: self.version_constraints.deep_view(),
            arch_filter: self.arch_filter@,
            stage_filter: self.stage_filter.deep_view(),
        }
    }
}

impl DeepView for SingleDependency {
    type V = SingleDependencyView;

    open spec fn deep_view(&self) -> SingleDependencyView {
        self.view()
    }
}

/// The mathematical image of an OR-group.
#[verifier::ext_equal]
pub struct DependencyView {
    pub alternate: Seq<SingleDependencyView>,
}

/// One dependency: a nonempty group of alternatives, satisfied when any
/// one of them is.
#[derive(Clone, Debug, PartialEq, Eq)]
pub struct Dependency {
    pub alternate: Vec<SingleDependency>,
}

impl View for Dependency {
    type V = DependencyView;

    open spec fn view(&self) -> DependencyView {
        DependencyView { alternate: self.alternate.deep_view() }
    }
}

impl DeepView for Dependency {
    type V = DependencyView;

    open spec fn deep_view(&self) -> DependencyView {
        self.view()
    }
}

/// The error a relation text reports: a bad-dependency error carrying
/// the whole text, or an unknown-architecture error carrying a token
/// outside the vocabulary.
pub open spec fn dep_text_err(s: Seq<char>, e: ParseError) -> bool {
    ||| e matches ParseError::BadDependency { text } && text@ == s
    ||| e matches ParseError::UnknownArch { token } && arch_of_token(token@) is None
}

/// Whether a character ends a package or architecture token.
pub open spec fn is_name_delim(c: char) -> bool {
    is_space(c) || c == ':' || c == '(' || c == '[' || c == '<'
}

/// The first position in `i..e` that ends a token; `e` if none does.
pub open spec fn name_end(s: Seq<char>, i: int, e: int) -> int
    decreases e - i,
    when 0 <= i <= e <= s.len()
{
    if i >= e {
        e
    } else if is_name_delim(s[i]) {
        i
    } else {
        name_end(s, i + 1, e)
    }
}

/// The bounds of `name_end`.
pub proof fn lemma_name_end(s: Seq<char>, i: int, e: int)
    requires
        0 <= i <= e <= s.len(),
    ensures
        i <= name_end(s, i, e) <= e,
    decreases e - i,
{
    if i < e && !is_name_delim(s[i]) {
        lemma_name_end(s, i + 1, e);
    }
}

/// Finds the end of the token that starts at `i`.
fn name_end_exec(s: &str, i: usize, e: usize) -> (r: usize)
    requires
        i <= e && e <= s@.len(),
    ensures
        r == name_end(s@, i as int, e as int),
        i <= r <= e,
    decreases e - i,
{
    proof {
        lemma_name_end(s@, i as int, e as int);
    }
    if i >= e {
        return e;
    }
    let c = s.get_char(i);
    if c == ' ' || c == '\t' || c == ':' || c == '(' || c == '[' || c == '<' {
        i
    } else {
        name_end_exec(s, i + 1, e)
    }
}

/// The comparison operator at position `q` and the position after it.
/// A single angle bracket is the inclusive comparison it historically
/// meant; the doubled bracket is strict.
pub open spec fn parse_operator(s: Seq<char>, q: int, e: int) -> Option<(ConstraintOperator, int)>
    recommends
        0 <= q <= e <= s.len(),
{
    if q >= e {
        None
    } else if s[q] == '<' {
        if q + 1 < e && s[q + 1] == '<' {
            Some((ConstraintOperator::Lt, q + 2))
        } else if q + 1 < e && s[q + 1] == '=' {
            Some((ConstraintOperator::Le, q + 2))
        } else {
            Some((ConstraintOperator::Le, q + 1))
        }
    } else if s[q] == '>' {
        if q + 1 < e && s[q + 1] == '>' {
            Some((ConstraintOperator::Gt, q + 2))
        } else if q + 1 < e && s[q + 1] == '=' {
            Some((ConstraintOperator::Ge, q + 2))
        } else {
            Some((ConstraintOperator::Ge, q + 1))
        }
    } else if s[q] == '=' {
        Some((ConstraintOperator::Eq, q + 1))
    } else {
        None
    }
}

/// Reads the comparison operator at position `q`.
fn parse_operator_exec(s: &str, q: usize, e: usize) -> (r: Option<(ConstraintOperator, usize)>)
    requires
        q <= e && e <= s@.len(),
    ensures
        match r {
            Some((op, after)) => parse_operator(s@, q as int, e as int) == Some(
                (op, after as int),
            ) && q < after <= e,
            None => parse_operator(s@, q as int, e as int) is None,
        },
{
    if q >= e {
        return None;
    }
    let c = s.get_char(q);
    if c == '<' {
        if q + 1 < e && s.get_char(q + 1) == '<' {
            Some((ConstraintOperator::Lt, q + 2))
        } else if q + 1 < e && s.get_char(q + 1) == '=' {
            Some((ConstraintOperator::Le, q + 2))
        } else {
            Some((ConstraintOperator::Le, q + 1))
        }
    } else if c == '>' {
        if q + 1 < e && s.get_char(q + 1) == '>' {
            Some((ConstraintOperator::Gt, q + 2))
        } else if q + 1 < e && s.get_char(q + 1) == '=' {
            Some((ConstraintOperator::Ge, q + 2))
        } else {
            Some((ConstraintOperator::Ge, q + 1))
        }
    } else if c == '=' {
        Some((ConstraintOperator::Eq, q + 1))
    } else {
        None
    }
}

/// The architecture filter tokens between `j` and `close`: whitespace
/// separated, each a vocabulary token with an optional leading negation
/// mark; a token outside the vocabulary fails the parse.
pub open spec fn parse_arch_tokens(s: Seq<char>, j: int, close: int) -> Option<Seq<Arch>>
    decreases close - j,
    when 0 <= j <= close <= s.len()
    via parse_arch_tokens_dec
{
    let a = skip_in(s, j, close, true);
    if a >= close {
        Some(Seq::empty())
    } else {
        let b = skip_in(s, a, close, false);
        let tok0 = s.subrange(a, b);
        let tok = if tok0[0] == '!' {
            tok0.drop_first()
        } else {
            tok0
        };
        match arch_of_token(tok) {
            None => None,
            Some(arch) => match parse_arch_tokens(s, b, close) {
                None => None,
                Some(rest) => Some(seq![arch] + rest),
            },
        }
    }
}

#[via_fn]
proof fn parse_arch_tokens_dec(s: Seq<char>, j: int, close: int) {
    if 0 <= j && j <= close && close <= s.len() {
        lemma_skip_in(s, j, close, true);
        let a = skip_in(s, j, close, true);
        if a < close {
            lemma_skip_in(s, a, close, false);
        }
    }
}

/// Reads the architecture filter tokens between `j` and `close`.
fn parse_arch_tokens_into(s: &str, j: usize, close: usize, out: &mut Vec<Arch>) -> (r: Result<
    (),
    ParseError,
>)
    requires
        j <= close && close <= s@.len(),
    ensures
        match r {
            Ok(()) => parse_arch_tokens(s@, j as int, close as int) matches Some(toks)
                && final(out)@ == old(out)@ + toks,
            Err(e) => parse_arch_tokens(s@, j as int, close as int) is None && (e
                matches ParseError::UnknownArch { token } && arch_of_token(token@) is None),
        },
    decreases close - j,
{
    proof {
        lemma_skip_in(s@, j as int, close as int, true);
    }
    let a = skip_chars_in(s, j, close, true);
    if a >= close {
        proof {
            assert(out@ =~= old(out)@ + Seq::<Arch>::empty());
        }
        return Ok(());
    }
    proof {
        lemma_skip_in(s@, a as int, close as int, false);
    }
    let b = skip_chars_in(s, a, close, false);
    let start = if s.get_char(a) == '!' {
        a + 1
    } else {
        a
    };
    proof {
        if s@[a as int] == '!' {
            assert(s@.subrange(a as int, b as int).drop_first() =~= s@.subrange(
                a + 1,
                b as int,
            ));
        }
    }
    let tok = s.substring_char(start, b);
    match Arch::parse(tok) {
        Err(e) => Err(e),
        Ok(arch) => {
            out.push(arch);
            match parse_arch_tokens_into(s, b, close, out) {
                Err(e) => Err(e),
                Ok(()) => {
                    proof {
                        assert(out@ =~= old(out)@ + parse_arch_tokens(
                            s@,
                            j as int,
                            close as int,
                        ).unwrap());
                    }
                    Ok(())
                },
            }
        },
    }
}

/// The constraint and filter groups of one alternative, from `i` to `e`:
/// any run of parenthesized constraints, bracketed architecture filters
/// and angle-bracketed stage tags, in any order. Anything else, or an
/// unclosed group, fails the parse.
pub open spec fn parse_dep_tail(s: Seq<char>, i: int, e: int) -> Option<
    (Seq<ConstraintView>, Seq<Arch>, Seq<Seq<char>>),
>
    decreases e - i,
    when 0 <= i <= e <= s.len()
    via parse_dep_tail_dec
{
    let p = skip_in(s, i, e, true);
    if p >= e {
        Some((Seq::empty(), Seq::empty(), Seq::empty()))
    } else if s[p] == '(' {
        let q = skip_in(s, p + 1, e, true);
        match parse_operator(s, q, e) {
            None => None,
            Some((op, after)) => {
                let close = find_char_in(s, after, e, ')');
                if close >= e {
                    None
                } else {
                    let ver = trimmed(s, after, close);
                    if ver.len() == 0 {
                        None
                    } else {
                        match parse_dep_tail(s, close + 1, e) {
                            None => None,
                            Some((cs, af, st)) => Some(
                                (seq![ConstraintView { version: ver, operator: op }] + cs, af, st),
                            ),
                        }
                    }
                }
            },
        }
    } else if s[p] == '[' {
        let close = find_char_in(s, p + 1, e, ']');
        if close >= e {
            None
        } else {
            match parse_arch_tokens(s, p + 1, close) {
                None => None,
                Some(arches) => match parse_dep_tail(s, close + 1, e) {
                    None => None,
                    Some((cs, af, st)) => Some((cs, arches + af, st)),
                },
            }
        }
    } else if s[p] == '<' {
        let close = find_char_in(s, p + 1, e, '>');
        if close >= e {
            None
        } else {
            let toks = tokens_in(s, p + 1, close);
            match parse_dep_tail(s, close + 1, e) {
                None => None,
                Some((cs, af, st)) => Some((cs, af, toks + st)),
            }
        }
    } else {
        None
    }
}

#[via_fn]
proof fn parse_dep_tail_dec(s: Seq<char>, i: int, e: int) {
    if 0 <= i && i <= e && e <= s.len() {
        lemma_skip_in(s, i, e, true);
        let p = skip_in(s, i, e, true);
        if p < e {
            if s[p] == '(' {
                lemma_skip_in(s, p + 1, e, true);
                let q = skip_in(s, p + 1, e, true);
                match parse_operator(s, q, e) {
                    Some((op, after)) => {
                        lemma_find_char_in(s, after, e, ')');
                    },
                    None => {},
                }
            } else if s[p] == '[' {
                lemma_find_char_in(s, p + 1, e, ']');
            } else if s[p] == '<' {
                lemma_find_char_in(s, p + 1, e, '>');
            }
        }
    }
}

/// Reads one alternative's constraint and filter groups, appending to the
/// three accumulators.
fn parse_tail_into(
    s: &str,
    i: usize,
    e: usize,
    cons: &mut Vec<Constraint>,
    arches: &mut Vec<Arch>,
    stages: &mut Vec<String>,
) -> (r: Result<(), ParseError>)
    requires
        i <= e && e <= s@.len(),
    ensures
        match r {
            Ok(()) => parse_dep_tail(s@, i as int, e as int) matches Some((cs, af, st))
                && final(cons).deep_view() == old(cons).deep_view() + cs
                && final(arches)@ == old(arches)@ + af
                && final(stages).deep_view() == old(stages).deep_view() + st,
            Err(err) => parse_dep_tail(s@, i as int, e as int) is None && dep_text_err(
                s@,
                err,
            ),
        },
    decreases e - i,
{
    proof {
        lemma_skip_in(s@, i as int, e as int, true);
    }
    let p = skip_chars_in(s, i, e, true);
    if p >= e {
        proof {
            assert(cons.deep_view() =~= old(cons).deep_view() + Seq::<ConstraintView>::empty());
            assert(arches@ =~= old(arches)@ + Seq::<Arch>::empty());
            assert(stages.deep_view() =~= old(stages).deep_view() + Seq::<Seq<char>>::empty());
        }
        return Ok(());
    }
    let c = s.get_char(p);
    if c == '(' {
        proof {
            lemma_skip_in(s@, p + 1, e as int, true);
        }
        let q = skip_chars_in(s, p + 1, e, true);
        match parse_operator_exec(s, q, e) {
            None => Err(ParseError::BadDependency { text: s.to_owned() }),
            Some((op, after)) => {
                proof {
                    lemma_find_char_in(s@, after as int, e as int, ')');
                }
                let close = find_char_within(s, after, e, ')');
                if close >= e {
                    return Err(ParseError::BadDependency { text: s.to_owned() });
                }
                let ver = trim_substring(s, after, close);
                if ver.unicode_len() == 0 {
                    return Err(ParseError::BadDependency { text: s.to_owned() });
                }
                cons.push(Constraint { version: ver, operator: op });
                match parse_tail_into(s, close + 1, e, cons, arches, stages) {
                    Err(err) => Err(err),
                    Ok(()) => {
                        proof {
                            let (cs, af, st) = parse_dep_tail(s@, i as int, e as int).unwrap();
                            assert(cons.deep_view() =~= old(cons).deep_view() + cs);
                        }
                        Ok(())
                    },
                }
            },
        }
    } else if c == '[' {
        proof {
            lemma_find_char_in(s@, p + 1, e as int, ']');
        }
        let close = find_char_within(s, p + 1, e, ']');
        if close >= e {
            return Err(ParseError::BadDependency { text: s.to_owned() });
        }
        match parse_arch_tokens_into(s, p + 1, close, arches) {
            Err(err) => Err(err),
            Ok(()) => {
                match parse_tail_into(s, close + 1, e, cons, arches, stages) {
                    Err(err) => Err(err),
                    Ok(()) => {
                        proof {
                            let (cs, af, st) = parse_dep_tail(s@, i as int, e as int).unwrap();
                            assert(arches@ =~= old(arches)@ + af);
                        }
                        Ok(())
                    },
                }
            },
        }
    } else if c == '<' {
        proof {
            lemma_find_char_in(s@, p + 1, e as int, '>');
        }
        let close = find_char_within(s, p + 1, e, '>');
        if close >= e {
            return Err(ParseError::BadDependency { text: s.to_owned() });
        }
        tokens_into(s, p + 1, close, stages);
        match parse_tail_into(s, close + 1, e, cons, arches, stages) {
            Err(err) => Err(err),
            Ok(()) => {
                proof {
                    let (cs, af, st) = parse_dep_tail(s@, i as int, e as int).unwrap();
                    assert(stages.deep_view() =~= old(stages).deep_view() + st);
                }
                Ok(())
            },
        }
    } else {
        Err(ParseError::BadDependency { text: s.to_owned() })
    }
}

/// One alternative out of the characters `i..e`: package name, optional
/// colon-separated architecture qualifier, then the constraint and filter
/// groups. An empty name, an unknown architecture or a malformed group
/// fails the parse.
pub open spec fn parse_single_dep(s: Seq<char>, i: int, e: int) -> Option<SingleDependencyView>
    recommends
        0 <= i <= e <= s.len(),
{
    let p0 = skip_in(s, i, e, true);
    let p1 = name_end(s, p0, e);
    if p1 <= p0 {
        None
    } else {
        let package = s.subrange(p0, p1);
        if p1 < e && s[p1] == ':' {
            let p2 = name_end(s, p1 + 1, e);
            if p2 <= p1 + 1 {
                None
            } else {
                match arch_of_token(s.subrange(p1 + 1, p2)) {
                    None => None,
                    Some(a) => match parse_dep_tail(s, p2, e) {
                        None => None,
                        Some((cs, af, st)) => Some(
                            SingleDependencyView {
                                package,
                                arch: Some(a),
                                version_constraints: cs,
                                arch_filter: dedup_arches(af),
                                stage_filter: st,
                            },
                        ),
                    },
                }
            }
        } else {
            match parse_dep_tail(s, p1, e) {
                None => None,
                Some((cs, af, st)) => Some(
                    SingleDependencyView {
                        package,
                        arch: None,
                        version_constraints: cs,
                        arch_filter: dedup_arches(af),
                        stage_filter: st,
                    },
                ),
            }
        }
    }
}

/// Reads one alternative out of the characters `i..e`.
fn parse_single_dep_exec(s: &str, i: usize, e: usize) -> (r: Result<SingleDependency, ParseError>)
    requires
        i <= e && e <= s@.len(),
    ensures
        match r {
            Ok(d) => parse_single_dep(s@, i as int, e as int) == Some(d@),
            Err(err) => parse_single_dep(s@, i as int, e as int) is None && dep_text_err(
                s@,
                err,
            ),
        },
{
    proof {
        lemma_skip_in(s@, i as int, e as int, true);
    }
    let p0 = skip_chars_in(s, i, e, true);
    let p1 = name_end_exec(s, p0, e);
    if p1 <= p0 {
        return Err(ParseError::BadDependency { text: s.to_owned() });
    }
    let package = s.substring_char(p0, p1).to_owned();
    let mut arch: Option<Arch> = None;
    let mut tail_start = p1;
    if p1 < e && s.get_char(p1) == ':' {
        let p2 = name_end_exec(s, p1 + 1, e);
        if p2 <= p1 + 1 {
            return Err(ParseError::BadDependency { text: s.to_owned() });
        }
        let tok = s.substring_char(p1 + 1, p2);
        match Arch::parse(tok) {
            Err(err) => {
                return Err(err);
            },
            Ok(a) => {
                arch = Some(a);
                tail_start = p2;
            },
        }
    }
    let mut cons: Vec<Constraint> = Vec::new();
    let mut arches: Vec<Arch> = Vec::new();
    let mut stages: Vec<String> = Vec::new();
    match parse_tail_into(s, tail_start, e, &mut cons, &mut arches, &mut stages) {
        Err(err) => Err(err),
        Ok(()) => {
            let arch_filter = dedup(&arches);
            let d = SingleDependency {
                package,
                arch,
                version_constraints: cons,
                arch_filter,
                stage_filter: stages,
            };
            proof {
                let (cs, af, st) = parse_dep_tail(s@, tail_start as int, e as int).unwrap();
                assert(d.version_constraints.deep_view() =~= Seq::<ConstraintView>::empty() + cs);
                assert(arches@ =~= Seq::<Arch>::empty() + af);
                assert(d.arch_filter@ == dedup_arches(af));
                assert(d.stage_filter.deep_view() =~= Seq::<Seq<char>>::empty() + st);
            }
            Ok(d)
        },
    }
}

/// The bar-separated alternatives of one group, from `i` to `e`: each must
/// parse, and the group keeps their order.
pub open spec fn parse_alts(s: Seq<char>, i: int, e: int) -> Option<Seq<SingleDependencyView>>
    decreases e - i,
    when 0 <= i <= e <= s.len()
    via parse_alts_dec
{
    let b = find_char_in(s, i, e, '|');
    match parse_single_dep(s, i, b) {
        None => None,
        Some(d) => if b >= e {
            Some(seq![d])
        } else {
            match parse_alts(s, b + 1, e) {
                None => None,
                Some(rest) => Some(seq![d] + rest),
            }
        },
    }
}

#[via_fn]
proof fn parse_alts_dec(s: Seq<char>, i: int, e: int) {
    if 0 <= i && i <= e && e <= s.len() {
        lemma_find_char_in(s, i, e, '|');
    }
}

/// Reads the alternatives of one group, appending to `out`.
fn parse_alts_into(s: &str, i: usize, e: usize, out: &mut Vec<SingleDependency>) -> (r: Result<
    (),
    ParseError,
>)
    requires
        i <= e && e <= s@.len(),
    ensures
        match r {
            Ok(()) => parse_alts(s@, i as int, e as int) matches Some(alts)
                && final(out).deep_view() == old(out).deep_view() + alts,
            Err(err) => parse_alts(s@, i as int, e as int) is None && dep_text_err(s@, err),
        },
    decreases e - i,
{
    proof {
        lemma_find_char_in(s@, i as int, e as int, '|');
    }
    let b = find_char_within(s, i, e, '|');
    match parse_single_dep_exec(s, i, b) {
        Err(err) => Err(err),
        Ok(d) => {
            out.push(d);
            if b >= e {
                proof {
                    assert(out.deep_view() =~= old(out).deep_view() + parse_alts(
                        s@,
                        i as int,
                        e as int,
                    ).unwrap());
                }
                return Ok(());
            }
            match parse_alts_into(s, b + 1, e, out) {
                Err(err) => Err(err),
                Ok(()) => {
                    proof {
                        assert(out.deep_view() =~= old(out).deep_view() + parse_alts(
                            s@,
                            i as int,
                            e as int,
                        ).unwrap());
                    }
                    Ok(())
                },
            }
        },
    }
}

/// The comma-separated OR-groups from position `i` on. A group of only
/// whitespace contributes nothing, so an empty field holds no dependency.
pub open spec fn parse_dep_groups(s: Seq<char>, i: int) -> Option<Seq<DependencyView>>
    decreases s.len() - i,
    when 0 <= i <= s.len()
    via parse_dep_groups_dec
{
    let e = find_char(s, i, ',');
    let head = if trimmed(s, i, e).len() == 0 {
        Some(Seq::<DependencyView>::empty())
    } else {
        match parse_alts(s, i, e) {
            None => None,
            Some(alts) => Some(seq![DependencyView { alternate: alts }]),
        }
    };
    if e >= s.len() {
        head
    } else {
        match head {
            None => None,
            Some(h) => match parse_dep_groups(s, e + 1) {
                None => None,
                Some(t) => Some(h + t),
            },
        }
    }
}

#[via_fn]
proof fn parse_dep_groups_dec(s: Seq<char>, i: int) {
    lemma_find_char(s, i, ',');
}

/// Reads the OR-groups from position `i` on, appending to `out`.
fn read_groups_into(s: &str, i: usize, out: &mut Vec<Dependency>) -> (r: Result<(), ParseError>)
    requires
        i <= s@.len(),
    ensures
        match r {
            Ok(()) => parse_dep_groups(s@, i as int) matches Some(ds) && final(out).deep_view()
                == old(out).deep_view() + ds,
            Err(err) => parse_dep_groups(s@, i as int) is None && dep_text_err(s@, err),
        },
    decreases s@.len() - i,
{
    proof {
        lemma_find_char(s@, i as int, ',');
    }
    let n = s.unicode_len();
    let e = find_char_from(s, i, ',');
    let piece = trim_substring(s, i, e);
    if piece.unicode_len() > 0 {
        let mut alts: Vec<SingleDependency> = Vec::new();
        match parse_alts_into(s, i, e, &mut alts) {
            Err(err) => {
                return Err(err);
            },
            Ok(()) => {
                let dep = Dependency { alternate: alts };
                proof {
                    assert(dep.alternate.deep_view() =~= Seq::<SingleDependencyView>::empty()
                        + parse_alts(s@, i as int, e as int).unwrap());
                }
                out.push(dep);
            },
        }
    }
    if e < n {
        match read_groups_into(s, e + 1, out) {
            Err(err) => {
                return Err(err);
            },
            Ok(()) => {},
        }
    }
    proof {
        assert(out.deep_view() =~= old(out).deep_view() + parse_dep_groups(
            s@,
            i as int,
        ).unwrap());
    }
    Ok(())
}

/// Reads a whole relation field: the ordered OR-groups its text holds.
/// Any malformed alternative fails the whole field.
pub fn read(s: &str) -> (r: Result<Vec<Dependency>, ParseError>)
    ensures
        match r {
            Ok(ds) => parse_dep_groups(s@, 0) == Some(ds.deep_view()),
            Err(err) => parse_dep_groups(s@, 0) is None && dep_text_err(s@, err),
        },
{
    let mut out: Vec<Dependency> = Vec::new();
    match read_groups_into(s, 0, &mut out) {
        Err(err) => Err(err),
        Ok(()) => {
            proof {
                assert(out.deep_view() =~= Seq::<DependencyView>::empty() + parse_dep_groups(
                    s@,
                    0,
                ).unwrap());
            }
            Ok(out)
        },
    }
}

} // verus!
