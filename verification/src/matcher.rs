//! The invocation matcher: matches an ordered list of raw invocation tokens
//! against a specification, producing a binding of parameter identifiers to
//! token sequences or a structured failure.
//!
//! Semantics, defined by `match_from`: tokens are consumed left to right. A
//! token equal to a declared flag's spelling (`-c` or `--name`) binds that
//! flag wherever it appears; a one-value flag consumes exactly the next token
//! as its value. Any other token beginning with `-` (of length at least two)
//! is flag-like. Tokens not consumed by a declared parameter — flag-like or
//! not — are absorbed, in order and without interpretation, by the trailing
//! catch-all if one is declared, and are failures otherwise. A declared
//! parameter absent from the invocation is absent from the binding; a present
//! boolean flag binds the empty token sequence.

use vstd::prelude::*;

use crate::argspec::{Param, ParamKind, ParamView, Specification, SpecificationView};
use crate::chars::{chars_eq_from, str_to_chars};

verus! {

/// A structured matching failure, carrying the offending token or parameter
/// identifier.
#[derive(Debug, PartialEq)]
pub enum MatchError {
    /// A flag-like token that no declared parameter spells and no catch-all
    /// absorbs.
    UnknownFlag(String),
    /// A positional token with no open positional parameter and no catch-all.
    UnexpectedArgument(String),
    /// A token spelling a flag that is already bound, with no catch-all.
    DuplicateFlag(String),
    /// A one-value flag standing last, with no token left for its value.
    MissingValue(String),
    /// A required parameter that no token bound.
    MissingRequired(String),
}

/// A successful match: for each declared parameter, in declaration order,
/// either its bound tokens or nothing; and the tokens the catch-all absorbed.
#[derive(Debug, PartialEq)]
pub struct MatchResult {
    pub bindings: Vec<Option<Vec<String>>>,
    pub rest: Vec<String>,
}

/// Mathematical image of `MatchError`.
#[verifier::ext_equal]
pub ghost enum MatchErrorView {
    UnknownFlag(Seq<char>),
    UnexpectedArgument(Seq<char>),
    DuplicateFlag(Seq<char>),
    MissingValue(Seq<char>),
    MissingRequired(Seq<char>),
}

/// Mathematical image of `MatchResult`.
#[verifier::ext_equal]
pub ghost struct MatchResultView {
    pub bindings: Seq<Option<Seq<Seq<char>>>>,
    pub rest: Seq<Seq<char>>,
}

/// The views of a sequence of strings.
pub open spec fn vals_view(vs: Seq<String>) -> Seq<Seq<char>> {
    vs.map_values(|t: String| t@)
}

/// The view of one optional value list.
pub open spec fn opt_vals_view(o: Option<Vec<String>>) -> Option<Seq<Seq<char>>> {
    match o {
        Some(vs) => Some(vals_view(vs@)),
        None => None,
    }
}

/// The views of a binding list.
pub open spec fn bindings_view(b: Seq<Option<Vec<String>>>) -> Seq<Option<Seq<Seq<char>>>> {
    b.map_values(|o: Option<Vec<String>>| opt_vals_view(o))
}

impl View for MatchError {
    type V = MatchErrorView;

    open spec fn view(&self) -> MatchErrorView {
        match self {
            MatchError::UnknownFlag(t) => MatchErrorView::UnknownFlag(t@),
            MatchError::UnexpectedArgument(t) => MatchErrorView::UnexpectedArgument(t@),
            MatchError::DuplicateFlag(t) => MatchErrorView::DuplicateFlag(t@),
            MatchError::MissingValue(id) => MatchErrorView::MissingValue(id@),
            MatchError::MissingRequired(id) => MatchErrorView::MissingRequired(id@),
        }
    }
}

impl View for MatchResult {
    type V = MatchResultView;

    open spec fn view(&self) -> MatchResultView {
        MatchResultView { bindings: bindings_view(self.bindings@), rest: vals_view(self.rest@) }
    }
}

// ---------------------------------------------------------------------------
// The matching relation
// ---------------------------------------------------------------------------

/// The exact spelling that binds a parameter as a flag, if any.
pub open spec fn flag_token(p: ParamView) -> Option<Seq<char>> {
    match p.kind {
        ParamKind::Positional => None,
        ParamKind::ShortFlag => Some(seq!['-'] + p.id),
        ParamKind::LongFlag => Some(seq!['-', '-'] + p.id),
        ParamKind::LongValueFlag => Some(seq!['-', '-'] + p.id),
    }
}

/// A token that looks like a flag: it begins with `-` and has at least one
/// more character. The bare token `-` counts as positional.
pub open spec fn is_flag_like(t: Seq<char>) -> bool {
    t.len() >= 2 && t[0] == '-'
}

/// The first parameter at or after `k` that `t` spells as a flag.
pub open spec fn find_flag(params: Seq<ParamView>, t: Seq<char>, k: int) -> Option<int>
    decreases params.len() - k,
{
    if !(0 <= k < params.len()) {
        None
    } else if flag_token(params[k]) == Some(t) {
        Some(k)
    } else {
        find_flag(params, t, k + 1)
    }
}

/// The first positional parameter at or after `k` not yet bound.
pub open spec fn first_open_positional(
    params: Seq<ParamView>,
    bindings: Seq<Option<Seq<Seq<char>>>>,
    k: int,
) -> Option<int>
    decreases params.len() - k,
{
    if !(0 <= k < params.len()) {
        None
    } else if params[k].kind == ParamKind::Positional && bindings[k] is None {
        Some(k)
    } else {
        first_open_positional(params, bindings, k + 1)
    }
}

/// The first required parameter at or after `k` not yet bound.
pub open spec fn first_missing_required(
    params: Seq<ParamView>,
    bindings: Seq<Option<Seq<Seq<char>>>>,
    k: int,
) -> Option<int>
    decreases params.len() - k,
{
    if !(0 <= k < params.len()) {
        None
    } else if params[k].required && bindings[k] is None {
        Some(k)
    } else {
        first_missing_required(params, bindings, k + 1)
    }
}

/// One token list matched against a specification, from token `i` on, with
/// the bindings and absorbed tokens accumulated so far. This is the
/// matcher's definition.
pub open spec fn match_from(
    s: SpecificationView,
    toks: Seq<Seq<char>>,
    i: int,
    bindings: Seq<Option<Seq<Seq<char>>>>,
    rest_acc: Seq<Seq<char>>,
) -> Result<MatchResultView, MatchErrorView>
    decreases toks.len() - i,
{
    if !(0 <= i < toks.len()) {
        match first_missing_required(s.params, bindings, 0) {
            Some(k) => Err(MatchErrorView::MissingRequired(s.params[k].id)),
            None => Ok(MatchResultView { bindings, rest: rest_acc }),
        }
    } else {
        let t = toks[i];
        match find_flag(s.params, t, 0) {
            Some(k) => if bindings[k] is Some {
                if s.rest is Some {
                    match_from(s, toks, i + 1, bindings, rest_acc.push(t))
                } else {
                    Err(MatchErrorView::DuplicateFlag(t))
                }
            } else if s.params[k].kind == ParamKind::LongValueFlag {
                if i + 1 < toks.len() {
                    match_from(s, toks, i + 2, bindings.update(k, Some(seq![toks[i + 1]])), rest_acc)
                } else {
                    Err(MatchErrorView::MissingValue(s.params[k].id))
                }
            } else {
                match_from(s, toks, i + 1, bindings.update(k, Some(seq![])), rest_acc)
            },
            None => if is_flag_like(t) {
                if s.rest is Some {
                    match_from(s, toks, i + 1, bindings, rest_acc.push(t))
                } else {
                    Err(MatchErrorView::UnknownFlag(t))
                }
            } else {
                match first_open_positional(s.params, bindings, 0) {
                    Some(k) => match_from(s, toks, i + 1, bindings.update(k, Some(seq![t])), rest_acc),
                    None => if s.rest is Some {
                        match_from(s, toks, i + 1, bindings, rest_acc.push(t))
                    } else {
                        Err(MatchErrorView::UnexpectedArgument(t))
                    },
                }
            },
        }
    }
}

/// No parameter bound, nothing absorbed.
pub open spec fn empty_bindings(n: nat) -> Seq<Option<Seq<Seq<char>>>> {
    Seq::new(n, |k: int| None)
}

/// What matching a whole token list against a specification yields.
pub open spec fn match_tokens(s: SpecificationView, toks: Seq<Seq<char>>) -> Result<
    MatchResultView,
    MatchErrorView,
> {
    match_from(s, toks, 0, empty_bindings(s.params.len()), Seq::empty())
}

// ---------------------------------------------------------------------------
// Laws of the matching relation
// ---------------------------------------------------------------------------

proof fn lemma_catch_all_absorbs_from(
    s: SpecificationView,
    toks: Seq<Seq<char>>,
    i: int,
    bindings: Seq<Option<Seq<Seq<char>>>>,
    rest_acc: Seq<Seq<char>>,
)
    requires
        s.rest is Some,
    ensures
        match_from(s, toks, i, bindings, rest_acc) matches Err(e) ==> (e is MissingRequired
            || e is MissingValue),
    decreases toks.len() - i,
{
    if 0 <= i < toks.len() {
        let t = toks[i];
        match find_flag(s.params, t, 0) {
            Some(k) => {
                if bindings[k] is Some {
                    lemma_catch_all_absorbs_from(s, toks, i + 1, bindings, rest_acc.push(t));
                } else if s.params[k].kind == ParamKind::LongValueFlag {
                    if i + 1 < toks.len() {
                        lemma_catch_all_absorbs_from(
                            s,
                            toks,
                            i + 2,
                            bindings.update(k, Some(seq![toks[i + 1]])),
                            rest_acc,
                        );
                    }
                } else {
                    lemma_catch_all_absorbs_from(
                        s,
                        toks,
                        i + 1,
                        bindings.update(k, Some(seq![])),
                        rest_acc,
                    );
                }
            },
            None => {
                if is_flag_like(t) {
                    lemma_catch_all_absorbs_from(s, toks, i + 1, bindings, rest_acc.push(t));
                } else {
                    match first_open_positional(s.params, bindings, 0) {
                        Some(k) => {
                            lemma_catch_all_absorbs_from(
                                s,
                                toks,
                                i + 1,
                                bindings.update(k, Some(seq![t])),
                                rest_acc,
                            );
                        },
                        None => {
                            lemma_catch_all_absorbs_from(s, toks, i + 1, bindings, rest_acc.push(t));
                        },
                    }
                }
            },
        }
    }
}

/// With a catch-all declared, matching never fails over the shape of the
/// tokens themselves: a token list — even one whose tokens look like unknown
/// flags — is never rejected as unknown, unexpected or duplicated, since the
/// catch-all absorbs every token the named parameters do not consume. Once
/// the named parameters are satisfied, the only failures left are a required
/// parameter that no token bound and a one-value flag left without a value.
pub proof fn lemma_catch_all_absorption(s: SpecificationView, toks: Seq<Seq<char>>)
    requires
        s.rest is Some,
    ensures
        match_tokens(s, toks) matches Err(e) ==> (e is MissingRequired || e is MissingValue),
{
    lemma_catch_all_absorbs_from(s, toks, 0, empty_bindings(s.params.len()), Seq::empty());
}

/// A specification with no declared parameters and no catch-all accepts only
/// the empty token list: any first token is rejected, as an unknown flag if
/// it looks like one and as an unexpected argument otherwise.
pub proof fn lemma_empty_specification_rejects(s: SpecificationView, toks: Seq<Seq<char>>)
    requires
        s.params.len() == 0,
        s.rest is None,
        toks.len() > 0,
    ensures
        match_tokens(s, toks) == if is_flag_like(toks[0]) {
            Err::<MatchResultView, MatchErrorView>(MatchErrorView::UnknownFlag(toks[0]))
        } else {
            Err::<MatchResultView, MatchErrorView>(MatchErrorView::UnexpectedArgument(toks[0]))
        },
{
    assert(find_flag(s.params, toks[0], 0) is None);
    assert(first_open_positional(s.params, empty_bindings(0), 0) is None);
}

/// A specification with no declared parameters and no catch-all accepts the
/// empty token list.
pub proof fn lemma_empty_specification_accepts_nothing(s: SpecificationView)
    requires
        s.params.len() == 0,
        s.rest is None,
    ensures
        match_tokens(s, Seq::empty()) == Ok::<MatchResultView, MatchErrorView>(
            MatchResultView { bindings: empty_bindings(0), rest: Seq::empty() },
        ),
{
    assert(first_missing_required(s.params, empty_bindings(0), 0) is None);
    assert(empty_bindings(s.params.len()) =~= empty_bindings(0));
}

// ---------------------------------------------------------------------------
// Executable matcher
// ---------------------------------------------------------------------------

/// Whether `t` is the exact spelling that binds `p` as a flag.
fn param_matches_token(p: &Param, t: &String) -> (b: bool)
    ensures
        b == (flag_token(p@) == Some(t@)),
{
    let tc = str_to_chars(t.as_str());
    let r = match p.kind {
        ParamKind::Positional => false,
        ParamKind::ShortFlag => {
            let idc = str_to_chars(p.id.as_str());
            tc.len() >= 1 && tc[0] == '-' && chars_eq_from(&tc, 1, &idc)
        },
        ParamKind::LongFlag | ParamKind::LongValueFlag => {
            let idc = str_to_chars(p.id.as_str());
            tc.len() >= 2 && tc[0] == '-' && tc[1] == '-' && chars_eq_from(&tc, 2, &idc)
        },
    };
    proof {
        let ft = flag_token(p@);
        match p.kind {
            ParamKind::Positional => {},
            ParamKind::ShortFlag => {
                let full = seq!['-'] + p@.id;
                if r {
                    assert(t@ =~= full);
                } else {
                    if ft == Some(t@) {
                        assert(t@ == full);
                        assert(t@.len() >= 1 && t@[0] == '-');
                        assert(t@.subrange(1, t@.len() as int) =~= p@.id);
                        assert(false);
                    }
                }
            },
            ParamKind::LongFlag | ParamKind::LongValueFlag => {
                let full = seq!['-', '-'] + p@.id;
                if r {
                    assert(t@ =~= full);
                } else {
                    if ft == Some(t@) {
                        assert(t@ == full);
                        assert(t@.len() >= 2 && t@[0] == '-' && t@[1] == '-');
                        assert(t@.subrange(2, t@.len() as int) =~= p@.id);
                        assert(false);
                    }
                }
            },
        }
    }
    r
}

/// Whether `t` looks like a flag.
fn is_flag_like_x(t: &String) -> (b: bool)
    ensures
        b == is_flag_like(t@),
{
    let tc = str_to_chars(t.as_str());
    tc.len() >= 2 && tc[0] == '-'
}

fn find_flag_x(params: &Vec<Param>, t: &String) -> (r: Option<usize>)
    ensures
        r matches Some(k) ==> k < params.len()
            && find_flag(params@.map_values(|p: Param| p@), t@, 0) == Some(k as int),
        r is None ==> find_flag(params@.map_values(|p: Param| p@), t@, 0) is None,
{
    let ghost pv = params@.map_values(|p: Param| p@);
    let mut k: usize = 0;
    while k < params.len()
        invariant
            k <= params.len(),
            pv == params@.map_values(|p: Param| p@),
            find_flag(pv, t@, 0) == find_flag(pv, t@, k as int),
        decreases params.len() - k,
    {
        proof {
            assert(pv[k as int] == params@[k as int]@);
        }
        if param_matches_token(&params[k], t) {
            return Some(k);
        }
        k = k + 1;
    }
    None
}

fn first_open_positional_x(params: &Vec<Param>, bindings: &Vec<Option<Vec<String>>>) -> (r: Option<
    usize,
>)
    requires
        bindings.len() == params.len(),
    ensures
        r matches Some(k) ==> k < params.len()
            && first_open_positional(
                params@.map_values(|p: Param| p@),
                bindings_view(bindings@),
                0,
            ) == Some(k as int),
        r is None ==> first_open_positional(
            params@.map_values(|p: Param| p@),
            bindings_view(bindings@),
            0,
        ) is None,
{
    let ghost pv = params@.map_values(|p: Param| p@);
    let ghost bv = bindings_view(bindings@);
    let mut k: usize = 0;
    while k < params.len()
        invariant
            k <= params.len(),
            bindings.len() == params.len(),
            pv == params@.map_values(|p: Param| p@),
            bv == bindings_view(bindings@),
            first_open_positional(pv, bv, 0) == first_open_positional(pv, bv, k as int),
        decreases params.len() - k,
    {
        proof {
            assert(pv[k as int] == params@[k as int]@);
            assert(bv[k as int] == opt_vals_view(bindings@[k as int]));
        }
        let is_pos = match params[k].kind {
            ParamKind::Positional => true,
            _ => false,
        };
        if is_pos && bindings[k].is_none() {
            return Some(k);
        }
        k = k + 1;
    }
    None
}

fn first_missing_required_x(params: &Vec<Param>, bindings: &Vec<Option<Vec<String>>>) -> (r: Option<
    usize,
>)
    requires
        bindings.len() == params.len(),
    ensures
        r matches Some(k) ==> k < params.len()
            && first_missing_required(
                params@.map_values(|p: Param| p@),
                bindings_view(bindings@),
                0,
            ) == Some(k as int),
        r is None ==> first_missing_required(
            params@.map_values(|p: Param| p@),
            bindings_view(bindings@),
            0,
        ) is None,
{
    let ghost pv = params@.map_values(|p: Param| p@);
    let ghost bv = bindings_view(bindings@);
    let mut k: usize = 0;
    while k < params.len()
        invariant
            k <= params.len(),
            bindings.len() == params.len(),
            pv == params@.map_values(|p: Param| p@),
            bv == bindings_view(bindings@),
            first_missing_required(pv, bv, 0) == first_missing_required(pv, bv, k as int),
        decreases params.len() - k,
    {
        proof {
            assert(pv[k as int] == params@[k as int]@);
            assert(bv[k as int] == opt_vals_view(bindings@[k as int]));
        }
        if params[k].required && bindings[k].is_none() {
            return Some(k);
        }
        k = k + 1;
    }
    None
}

proof fn lemma_bindings_view_update(b: Seq<Option<Vec<String>>>, k: int, x: Option<Vec<String>>)
    requires
        0 <= k < b.len(),
    ensures
        bindings_view(b.update(k, x)) =~= bindings_view(b).update(k, opt_vals_view(x)),
{
}

proof fn lemma_vals_view_push(vs: Seq<String>, t: String)
    ensures
        vals_view(vs.push(t)) =~= vals_view(vs).push(t@),
{
}

impl Specification {
    /// Matches a concrete token list, yielding exactly what the matching
    /// relation `match_tokens` says: its binding on success, and its
    /// structured failure otherwise.
    pub fn match_invocation(&self, tokens: &Vec<String>) -> (r: Result<MatchResult, MatchError>)
        ensures
            r matches Ok(m) ==> match_tokens(self@, vals_view(tokens@)) == Ok::<
                MatchResultView,
                MatchErrorView,
            >(m@) && m.bindings.len() == self.params.len(),
            r matches Err(e) ==> match_tokens(self@, vals_view(tokens@)) == Err::<
                MatchResultView,
                MatchErrorView,
            >(e@),
    {
        let ghost toksv = vals_view(tokens@);
        let mut bindings: Vec<Option<Vec<String>>> = Vec::new();
        while bindings.len() < self.params.len()
            invariant
                bindings.len() <= self.params.len(),
                forall|j: int| 0 <= j < bindings@.len() ==> bindings@[j] is None,
            decreases self.params.len() - bindings.len(),
        {
            bindings.push(None);
        }
        proof {
            assert(bindings_view(bindings@) =~= empty_bindings(self@.params.len()));
        }
        let mut rest_acc: Vec<String> = Vec::new();
        proof {
            assert(vals_view(rest_acc@) =~= Seq::<Seq<char>>::empty());
        }
        let mut i: usize = 0;
        while i < tokens.len()
            invariant
                i <= tokens.len(),
                bindings.len() == self.params.len(),
                toksv == vals_view(tokens@),
                match_tokens(self@, toksv) == match_from(
                    self@,
                    toksv,
                    i as int,
                    bindings_view(bindings@),
                    vals_view(rest_acc@),
                ),
            decreases tokens.len() - i,
        {
            let t = &tokens[i];
            proof {
                assert(toksv[i as int] == t@);
            }
            match find_flag_x(&self.params, t) {
                Some(k) => {
                    if bindings[k].is_some() {
                        if self.rest.is_some() {
                            proof {
                                lemma_vals_view_push(rest_acc@, *t);
                            }
                            rest_acc.push(t.clone());
                            i = i + 1;
                        } else {
                            return Err(MatchError::DuplicateFlag(t.clone()));
                        }
                    } else {
                        let is_value_flag = match self.params[k].kind {
                            ParamKind::LongValueFlag => true,
                            _ => false,
                        };
                        if is_value_flag {
                            if i + 1 < tokens.len() {
                                let value = tokens[i + 1].clone();
                                let vvec = vec![value];
                                proof {
                                    lemma_bindings_view_update(
                                        bindings@,
                                        k as int,
                                        Some(vvec),
                                    );
                                    assert(vals_view(vvec@) =~= seq![toksv[i + 1]]);
                                }
                                bindings[k] = Some(vvec);
                                i = i + 2;
                            } else {
                                return Err(MatchError::MissingValue(self.params[k].id.clone()));
                            }
                        } else {
                            let vvec: Vec<String> = Vec::new();
                            proof {
                                lemma_bindings_view_update(bindings@, k as int, Some(vvec));
                                assert(vals_view(vvec@) =~= Seq::<Seq<char>>::empty());
                            }
                            bindings[k] = Some(vvec);
                            i = i + 1;
                        }
                    }
                },
                None => {
                    if is_flag_like_x(t) {
                        if self.rest.is_some() {
                            proof {
                                lemma_vals_view_push(rest_acc@, *t);
                            }
                            rest_acc.push(t.clone());
                            i = i + 1;
                        } else {
                            return Err(MatchError::UnknownFlag(t.clone()));
                        }
                    } else {
                        match first_open_positional_x(&self.params, &bindings) {
                            Some(k) => {
                                let vvec = vec![t.clone()];
                                proof {
                                    lemma_bindings_view_update(bindings@, k as int, Some(vvec));
                                    assert(vals_view(vvec@) =~= seq![toksv[i as int]]);
                                }
                                bindings[k] = Some(vvec);
                                i = i + 1;
                            },
                            None => {
                                if self.rest.is_some() {
                                    proof {
                                        lemma_vals_view_push(rest_acc@, *t);
                                    }
                                    rest_acc.push(t.clone());
                                    i = i + 1;
                                } else {
                                    return Err(MatchError::UnexpectedArgument(t.clone()));
                                }
                            },
                        }
                    }
                },
            }
        }
        match first_missing_required_x(&self.params, &bindings) {
            Some(k) => Err(MatchError::MissingRequired(self.params[k].id.clone())),
            None => {
                let m = MatchResult { bindings, rest: rest_acc };
                proof {
                    assert(match_tokens(self@, toksv) == Ok::<MatchResultView, MatchErrorView>(m@));
                }
                Ok(m)
            },
        }
    }
}

} // verus!
