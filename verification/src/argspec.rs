//! The compiled argument specification: an ordered list of typed parameter
//! declarations plus an optional trailing catch-all, derived once from the
//! intermediate representation and immutable thereafter. Compilation has no
//! failure modes: every representation the grammar accepts is compilable.

use vstd::prelude::*;

use crate::chars::chars_to_string;
use crate::grammar::{is_ident_seq, is_upper_seq, wf_arg, wf_usage_lang};
use crate::lang::{ArgBaseView, ArgSpecView, UsageLang, UsageLangView};

verus! {

/// How one parameter binds tokens.
#[derive(Clone, Copy, Debug, PartialEq, Eq, Structural)]
pub enum ParamKind {
    /// Binds one non-flag token, left to right among positionals.
    Positional,
    /// A boolean flag matching the token `-` followed by the identifier.
    ShortFlag,
    /// A boolean flag matching the token `--` followed by the identifier.
    LongFlag,
    /// A flag matching `--` followed by the identifier, consuming exactly the
    /// next token as its one value.
    LongValueFlag,
}

/// One declared parameter of a specification.
#[derive(Debug)]
pub struct Param {
    /// The stable identifier: the declared name, or the single letter of a
    /// short flag.
    pub id: String,
    pub kind: ParamKind,
    pub required: bool,
    /// The display placeholder of a one-value flag; present exactly for
    /// `LongValueFlag`.
    pub placeholder: Option<String>,
}

/// The compiled form of one annotation line. `params` keeps declaration
/// order end-to-end; `rest`, if present, names the trailing catch-all, which
/// is always optional and always ordered last.
#[derive(Debug)]
pub struct Specification {
    pub params: Vec<Param>,
    pub rest: Option<String>,
}

/// Mathematical image of `Param`.
#[verifier::ext_equal]
pub ghost struct ParamView {
    pub id: Seq<char>,
    pub kind: ParamKind,
    pub required: bool,
    pub placeholder: Option<Seq<char>>,
}

/// Mathematical image of `Specification`.
#[verifier::ext_equal]
pub ghost struct SpecificationView {
    pub params: Seq<ParamView>,
    pub rest: Option<Seq<char>>,
}

impl View for Param {
    type V = ParamView;

    open spec fn view(&self) -> ParamView {
        ParamView {
            id: self.id@,
            kind: self.kind,
            required: self.required,
            placeholder: match &self.placeholder {
                Some(p) => Some(p@),
                None => None,
            },
        }
    }
}

impl View for Specification {
    type V = SpecificationView;

    open spec fn view(&self) -> SpecificationView {
        SpecificationView {
            params: self.params@.map_values(|p: Param| p@),
            rest: match &self.rest {
                Some(r) => Some(r@),
                None => None,
            },
        }
    }
}

impl Param {
    /// A structural copy.
    pub fn duplicate(&self) -> (r: Param)
        ensures
            r@ == self@,
    {
        Param {
            id: self.id.clone(),
            kind: self.kind,
            required: self.required,
            placeholder: match &self.placeholder {
                Some(p) => Some(p.clone()),
                None => None,
            },
        }
    }
}

impl Specification {
    /// A structural copy; specifications are immutable and freely shared.
    pub fn duplicate(&self) -> (r: Specification)
        ensures
            r@ == self@,
    {
        let mut params: Vec<Param> = Vec::new();
        let mut i: usize = 0;
        while i < self.params.len()
            invariant
                i <= self.params.len(),
                params@.len() == i,
                forall|j: int| 0 <= j < i ==> params@[j]@ == self.params@[j]@,
            decreases self.params.len() - i,
        {
            params.push(self.params[i].duplicate());
            i = i + 1;
        }
        let r = Specification {
            params,
            rest: match &self.rest {
                Some(r) => Some(r.clone()),
                None => None,
            },
        };
        proof {
            assert(r@ =~~= self@);
        }
        r
    }
}

/// The parameter one declared argument compiles to.
pub open spec fn param_of_arg(a: ArgSpecView) -> ParamView {
    let (base, required) = match a {
        ArgSpecView::Required(b) => (b, true),
        ArgSpecView::Optional(b) => (b, false),
    };
    match base {
        ArgBaseView::Positional(name) => ParamView {
            id: name,
            kind: ParamKind::Positional,
            required,
            placeholder: None,
        },
        ArgBaseView::Short(c) => ParamView {
            id: seq![c],
            kind: ParamKind::ShortFlag,
            required,
            placeholder: None,
        },
        ArgBaseView::Long(name, value) => match value {
            Some(v) => ParamView {
                id: name,
                kind: ParamKind::LongValueFlag,
                required,
                placeholder: Some(v),
            },
            None => ParamView {
                id: name,
                kind: ParamKind::LongFlag,
                required,
                placeholder: None,
            },
        },
    }
}

/// What compilation produces: each declared argument in declaration order,
/// and the catch-all carried over.
pub open spec fn compile_spec(u: UsageLangView) -> SpecificationView {
    SpecificationView { params: u.arguments.map_values(|a: ArgSpecView| param_of_arg(a)), rest: u.rest }
}

/// The specification of a subcommand with no usage annotation at all: accept
/// anything, validate nothing — a single catch-all named `args`.
pub open spec fn default_spec() -> SpecificationView {
    SpecificationView { params: seq![], rest: Some(seq!['a', 'r', 'g', 's']) }
}

/// One parameter's invariant: a non-empty identifier, and a placeholder
/// present exactly on a one-value flag, non-empty and uppercase there.
pub open spec fn wf_param(p: ParamView) -> bool {
    p.id.len() > 0 && (p.placeholder is Some <==> p.kind == ParamKind::LongValueFlag) && match p
        .placeholder {
        Some(v) => is_upper_seq(v),
        None => true,
    }
}

/// The specification invariant: every parameter well formed, and the
/// catch-all — at most one, and always last, since it stands apart from the
/// declared parameters — named by a well-formed identifier.
pub open spec fn wf_spec(s: SpecificationView) -> bool {
    (forall|k: int| 0 <= k < s.params.len() ==> wf_param(s.params[k])) && match s.rest {
        Some(r) => is_ident_seq(r),
        None => true,
    }
}

/// Compiling a representation the grammar accepts yields a specification
/// satisfying the specification invariant.
pub proof fn lemma_compile_well_formed(u: UsageLangView)
    requires
        wf_usage_lang(u),
    ensures
        wf_spec(compile_spec(u)),
{
    let s = compile_spec(u);
    assert forall|k: int| 0 <= k < s.params.len() implies wf_param(s.params[k]) by {
        assert(wf_arg(u.arguments[k]));
        assert(s.params[k] == param_of_arg(u.arguments[k]));
    }
}

/// The default specification satisfies the specification invariant.
pub proof fn lemma_default_well_formed()
    ensures
        wf_spec(default_spec()),
{
    let name = seq!['a', 'r', 'g', 's'];
    assert(is_ident_seq(name)) by {
        assert(crate::grammar::is_ident_start(name[0]));
        assert forall|j: int| 0 <= j < name.len() implies crate::grammar::is_ident_char(
            name[j],
        ) by {
            assert(name[j] == 'a' || name[j] == 'r' || name[j] == 'g' || name[j] == 's');
        }
    }
}

/// Compiles one declared argument.
fn compile_arg(a: &crate::lang::ArgSpec) -> (r: Param)
    ensures
        r@ == param_of_arg(a@),
{
    let (base, required) = match a {
        crate::lang::ArgSpec::Required(b) => (b, true),
        crate::lang::ArgSpec::Optional(b) => (b, false),
    };
    let r = match base {
        crate::lang::ArgBase::Positional(name) => Param {
            id: name.clone(),
            kind: ParamKind::Positional,
            required,
            placeholder: None,
        },
        crate::lang::ArgBase::Short(c) => {
            let idv: Vec<char> = vec![*c];
            Param {
                id: chars_to_string(&idv),
                kind: ParamKind::ShortFlag,
                required,
                placeholder: None,
            }
        },
        crate::lang::ArgBase::Long(name, value) => match value {
            Some(v) => Param {
                id: name.clone(),
                kind: ParamKind::LongValueFlag,
                required,
                placeholder: Some(v.clone()),
            },
            None => Param {
                id: name.clone(),
                kind: ParamKind::LongFlag,
                required,
                placeholder: None,
            },
        },
    };
    proof {
        assert(r@ =~= param_of_arg(a@));
    }
    r
}

/// Compiles the representation of one annotation line into its
/// specification. Total: every representation compiles.
pub fn compile(u: &UsageLang) -> (s: Specification)
    ensures
        s@ == compile_spec(u@),
{
    let mut params: Vec<Param> = Vec::new();
    let mut i: usize = 0;
    while i < u.arguments.len()
        invariant
            i <= u.arguments.len(),
            params@.len() == i,
            forall|j: int| 0 <= j < i ==> params@[j]@ == param_of_arg(u@.arguments[j]),
        decreases u.arguments.len() - i,
    {
        params.push(compile_arg(&u.arguments[i]));
        i = i + 1;
    }
    let s = Specification {
        params,
        rest: match &u.rest {
            Some(r) => Some(r.clone()),
            None => None,
        },
    };
    proof {
        assert(s@ =~~= compile_spec(u@));
    }
    s
}

/// The default specification for a subcommand without a usage annotation.
pub fn default_specification() -> (s: Specification)
    ensures
        s@ == default_spec(),
{
    let idv: Vec<char> = vec!['a', 'r', 'g', 's'];
    let s = Specification { params: Vec::new(), rest: Some(chars_to_string(&idv)) };
    proof {
        assert(s@.params =~= default_spec().params);
        assert(idv@ =~= seq!['a', 'r', 'g', 's']);
    }
    s
}

} // verus!
