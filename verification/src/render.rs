//! The usage and help renderer: pure formatting over a specification and the
//! externally supplied summary and description strings. No parsing and no
//! matching happen here.
//!
//! The one-line synopsis lists the command's name and then every parameter in
//! declaration order, each written as the annotation language writes it:
//! `name`, `-f`, `--long` or `--value=VALUE`, bracketed when optional, with
//! the catch-all written `[rest]...` last.

use vstd::prelude::*;

use crate::argspec::{Param, ParamKind, ParamView, Specification, SpecificationView};
use crate::chars::{append_chars, char_vecs_view, join_space, join_space_x, str_to_chars};

verus! {

/// The bare spelling of one parameter, without optionality brackets.
pub open spec fn base_piece(p: ParamView) -> Seq<char> {
    match p.kind {
        ParamKind::Positional => p.id,
        ParamKind::ShortFlag => seq!['-'] + p.id,
        ParamKind::LongFlag => seq!['-', '-'] + p.id,
        ParamKind::LongValueFlag => seq!['-', '-'] + p.id + seq!['='] + match p.placeholder {
            Some(v) => v,
            None => Seq::empty(),
        },
    }
}

/// One parameter as the synopsis writes it: bracketed when optional.
pub open spec fn param_piece(p: ParamView) -> Seq<char> {
    if p.required {
        base_piece(p)
    } else {
        seq!['['] + base_piece(p) + seq![']']
    }
}

/// The catch-all as the synopsis writes it.
pub open spec fn rest_piece(id: Seq<char>) -> Seq<char> {
    seq!['['] + id + seq![']', '.', '.', '.']
}

/// The synopsis pieces after the command name: every declared parameter in
/// declaration order, then the catch-all if one is declared.
pub open spec fn synopsis_pieces(s: SpecificationView) -> Seq<Seq<char>> {
    s.params.map_values(|p: ParamView| param_piece(p)) + match s.rest {
        Some(id) => seq![rest_piece(id)],
        None => seq![],
    }
}

/// The one-line usage synopsis.
pub open spec fn synopsis(name: Seq<char>, s: SpecificationView) -> Seq<char> {
    join_space(seq![seq!['U', 's', 'a', 'g', 'e', ':'], name] + synopsis_pieces(s))
}

/// The full help text: the summary, a blank line, the synopsis, and, after
/// another blank line, the free-form description; absent parts are omitted
/// together with their blank lines.
pub open spec fn help_text(
    name: Seq<char>,
    summary: Option<Seq<char>>,
    description: Option<Seq<char>>,
    s: SpecificationView,
) -> Seq<char> {
    (match summary {
        Some(x) => x + seq!['\n', '\n'],
        None => Seq::empty(),
    }) + synopsis(name, s) + (match description {
        Some(d) => seq!['\n', '\n'] + d,
        None => Seq::empty(),
    })
}

/// One parameter's synopsis piece.
fn param_piece_x(p: &Param) -> (r: Vec<char>)
    ensures
        r@ == param_piece(p@),
{
    let mut base: Vec<char> = Vec::new();
    match p.kind {
        ParamKind::Positional => {
            let idc = str_to_chars(p.id.as_str());
            append_chars(&mut base, &idc);
        },
        ParamKind::ShortFlag => {
            base.push('-');
            let idc = str_to_chars(p.id.as_str());
            append_chars(&mut base, &idc);
        },
        ParamKind::LongFlag => {
            base.push('-');
            base.push('-');
            let idc = str_to_chars(p.id.as_str());
            append_chars(&mut base, &idc);
        },
        ParamKind::LongValueFlag => {
            base.push('-');
            base.push('-');
            let idc = str_to_chars(p.id.as_str());
            append_chars(&mut base, &idc);
            base.push('=');
            match &p.placeholder {
                Some(v) => {
                    let vc = str_to_chars(v.as_str());
                    append_chars(&mut base, &vc);
                },
                None => {},
            }
        },
    }
    proof {
        assert(base@ =~= base_piece(p@));
    }
    if p.required {
        base
    } else {
        let mut out: Vec<char> = Vec::new();
        out.push('[');
        append_chars(&mut out, &base);
        out.push(']');
        proof {
            assert(out@ =~= param_piece(p@));
        }
        out
    }
}

/// The catch-all's synopsis piece.
fn rest_piece_x(id: &String) -> (r: Vec<char>)
    ensures
        r@ == rest_piece(id@),
{
    let mut out: Vec<char> = Vec::new();
    out.push('[');
    let idc = str_to_chars(id.as_str());
    append_chars(&mut out, &idc);
    out.push(']');
    out.push('.');
    out.push('.');
    out.push('.');
    proof {
        assert(out@ =~= rest_piece(id@));
    }
    out
}

/// Renders the one-line usage synopsis for a command named `name`.
pub fn render_synopsis(name: &String, s: &Specification) -> (r: Vec<char>)
    ensures
        r@ == synopsis(name@, s@),
{
    let mut parts: Vec<Vec<char>> = Vec::new();
    let mut usage_word: Vec<char> = Vec::new();
    usage_word.push('U');
    usage_word.push('s');
    usage_word.push('a');
    usage_word.push('g');
    usage_word.push('e');
    usage_word.push(':');
    proof {
        assert(usage_word@ =~= seq!['U', 's', 'a', 'g', 'e', ':']);
    }
    parts.push(usage_word);
    parts.push(str_to_chars(name.as_str()));
    proof {
        assert(char_vecs_view(parts@).take(2)
            =~= seq![seq!['U', 's', 'a', 'g', 'e', ':'], name@]);
    }
    let ghost pv = s@.params;
    let mut k: usize = 0;
    while k < s.params.len()
        invariant
            k <= s.params.len(),
            pv == s@.params,
            parts@.len() == k + 2,
            char_vecs_view(parts@).take(2) =~= seq![seq!['U', 's', 'a', 'g', 'e', ':'], name@],
            forall|j: int| 0 <= j < k ==> char_vecs_view(parts@)[j + 2] == param_piece(pv[j]),
        decreases s.params.len() - k,
    {
        proof {
            assert(pv[k as int] == s.params@[k as int]@);
        }
        parts.push(param_piece_x(&s.params[k]));
        k = k + 1;
    }
    match &s.rest {
        Some(id) => {
            parts.push(rest_piece_x(id));
        },
        None => {},
    }
    proof {
        assert(char_vecs_view(parts@)
            =~= seq![seq!['U', 's', 'a', 'g', 'e', ':'], name@] + synopsis_pieces(s@));
    }
    join_space_x(&parts)
}

/// Compiling a representation and rendering its synopsis preserves the
/// declared argument structure and order: piece `j` of the synopsis is
/// exactly the spelling of declared argument `j`, and the catch-all, if
/// declared, stands last and nowhere else.
pub proof fn lemma_synopsis_preserves_order(u: crate::lang::UsageLangView)
    ensures
        synopsis_pieces(crate::argspec::compile_spec(u)).len() == u.arguments.len() + (
        if u.rest is Some {
            1int
        } else {
            0int
        }),
        forall|j: int| 0 <= j < u.arguments.len()
            ==> synopsis_pieces(crate::argspec::compile_spec(u))[j] == param_piece(
                crate::argspec::param_of_arg(u.arguments[j]),
            ),
        u.rest matches Some(id) ==> synopsis_pieces(crate::argspec::compile_spec(u)).last()
            == rest_piece(id),
{
    let s = crate::argspec::compile_spec(u);
    assert(s.params.len() == u.arguments.len());
    assert forall|j: int| 0 <= j < u.arguments.len()
        implies synopsis_pieces(s)[j] == param_piece(crate::argspec::param_of_arg(u.arguments[j])) by {
        assert(s.params[j] == crate::argspec::param_of_arg(u.arguments[j]));
    }
}

} // verus!
