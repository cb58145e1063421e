//! The exporter: serializes a successful match into one flat string for
//! hand-off to the invoked process in a single environment variable.
//!
//! Parameters are emitted in specification declaration order — never in the
//! order tokens appeared — each as its identifier followed by its bound
//! values joined by single spaces and wrapped in literal double quotes (a
//! present boolean flag thus exports as `id ""`). Parameters absent from the
//! match are omitted entirely, as is a catch-all that absorbed nothing.
//!
//! The quoting is deliberately naive: values are not escaped, so a value
//! containing a double quote will not round-trip on the consumer's side.
//! This is a documented limitation of the wire format, kept so as not to
//! break the consumer's contract.

use vstd::prelude::*;

use crate::argspec::{ParamView, Specification, SpecificationView};
use crate::chars::{
    append_chars, char_vecs_view, chars_to_string, join_space, join_space_x, str_to_chars,
    strings_to_char_vecs,
};
use crate::matcher::{MatchResult, MatchResultView};

verus! {

/// A value list wrapped in literal double quotes.
pub open spec fn quoted(x: Seq<char>) -> Seq<char> {
    seq!['"'] + x + seq!['"']
}

/// One exported parameter: its identifier, a space, and its quoted values.
pub open spec fn export_entry(id: Seq<char>, vals: Seq<Seq<char>>) -> Seq<char> {
    id + seq![' '] + quoted(join_space(vals))
}

/// The entries of the declared parameters from `k` on, in declaration order,
/// skipping parameters the match did not bind.
pub open spec fn export_param_entries(
    params: Seq<ParamView>,
    bindings: Seq<Option<Seq<Seq<char>>>>,
    k: int,
) -> Seq<Seq<char>>
    decreases params.len() - k,
{
    if !(0 <= k < params.len()) {
        seq![]
    } else {
        let tail = export_param_entries(params, bindings, k + 1);
        match bindings[k] {
            Some(vals) => seq![export_entry(params[k].id, vals)] + tail,
            None => tail,
        }
    }
}

/// Every entry of the export: declared parameters in declaration order, then
/// the catch-all if it absorbed at least one token.
pub open spec fn export_entries(s: SpecificationView, m: MatchResultView) -> Seq<Seq<char>> {
    export_param_entries(s.params, m.bindings, 0) + match s.rest {
        Some(id) => if m.rest.len() > 0 {
            seq![export_entry(id, m.rest)]
        } else {
            seq![]
        },
        None => seq![],
    }
}

/// The flat export string: the entries joined by single spaces.
pub open spec fn export_string(s: SpecificationView, m: MatchResultView) -> Seq<char> {
    join_space(export_entries(s, m))
}

/// One entry as characters.
fn export_entry_x(id: &String, vals: &Vec<String>) -> (r: Vec<char>)
    ensures
        r@ == export_entry(id@, crate::matcher::vals_view(vals@)),
{
    let mut out = str_to_chars(id.as_str());
    out.push(' ');
    out.push('"');
    let parts = strings_to_char_vecs(vals);
    proof {
        assert(char_vecs_view(parts@) =~= crate::matcher::vals_view(vals@));
    }
    let joined = join_space_x(&parts);
    append_chars(&mut out, &joined);
    out.push('"');
    proof {
        assert(out@ =~= export_entry(id@, crate::matcher::vals_view(vals@)));
    }
    out
}

/// Serializes a successful match against `s` into the flat export string.
pub fn export_matched(s: &Specification, m: &MatchResult) -> (r: String)
    requires
        m.bindings.len() == s.params.len(),
    ensures
        r@ == export_string(s@, m@),
{
    let ghost pv = s@.params;
    let ghost bv = m@.bindings;
    let mut parts: Vec<Vec<char>> = Vec::new();
    let mut k: usize = 0;
    while k < s.params.len()
        invariant
            k <= s.params.len(),
            m.bindings.len() == s.params.len(),
            pv == s@.params,
            bv == m@.bindings,
            export_param_entries(pv, bv, 0)
                == char_vecs_view(parts@) + export_param_entries(pv, bv, k as int),
        decreases s.params.len() - k,
    {
        let ghost parts0 = parts@;
        proof {
            assert(pv[k as int] == s.params@[k as int]@);
            assert(bv[k as int] == crate::matcher::opt_vals_view(m.bindings@[k as int]));
        }
        match &m.bindings[k] {
            Some(vals) => {
                let entry = export_entry_x(&s.params[k].id, vals);
                parts.push(entry);
                proof {
                    assert(char_vecs_view(parts@)
                        =~= char_vecs_view(parts0) + seq![export_entry(pv[k as int].id, bv[k as int]->Some_0)]);
                    assert(char_vecs_view(parts0) + export_param_entries(pv, bv, k as int)
                        =~= char_vecs_view(parts@) + export_param_entries(pv, bv, k + 1));
                }
            },
            None => {},
        }
        k = k + 1;
    }
    proof {
        assert(export_param_entries(pv, bv, pv.len() as int) =~= Seq::<Seq<char>>::empty());
    }
    match &s.rest {
        Some(id) => {
            if m.rest.len() > 0 {
                let entry = export_entry_x(id, &m.rest);
                let ghost parts0 = parts@;
                parts.push(entry);
                proof {
                    assert(char_vecs_view(parts@) =~= char_vecs_view(parts0) + seq![entry@]);
                    assert(char_vecs_view(parts@) =~= export_entries(s@, m@));
                }
            } else {
                proof {
                    assert(char_vecs_view(parts@) =~= export_entries(s@, m@));
                }
            }
        },
        None => {
            proof {
                assert(char_vecs_view(parts@) =~= export_entries(s@, m@));
            }
        },
    }
    let joined = join_space_x(&parts);
    chars_to_string(&joined)
}

/// The export is a pure function of the specification — whose declaration
/// order fixes the order of entries — and of the match result's bindings:
/// two matches that bound the same values, however their tokens were
/// ordered on the command line, export to one and the same string.
pub proof fn lemma_export_order_independent(
    s: SpecificationView,
    toks1: Seq<Seq<char>>,
    toks2: Seq<Seq<char>>,
    m1: MatchResultView,
    m2: MatchResultView,
)
    requires
        crate::matcher::match_tokens(s, toks1) == Ok::<MatchResultView, crate::matcher::MatchErrorView>(m1),
        crate::matcher::match_tokens(s, toks2) == Ok::<MatchResultView, crate::matcher::MatchErrorView>(m2),
        m1.bindings == m2.bindings,
        m1.rest == m2.rest,
    ensures
        export_string(s, m1) == export_string(s, m2),
{
    assert(m1 =~= m2);
}

} // verus!
