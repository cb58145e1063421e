//! One subcommand's usage contract: its compiled specification together with
//! the display strings its documentation supplied. Derived once from
//! immutable source text, immutable thereafter.

use vstd::prelude::*;

use crate::argspec::{compile, compile_spec, default_spec, default_specification, Specification,
    SpecificationView};
use crate::chars::chars_to_string;
use crate::export::{export_matched, export_string};
use crate::grammar::{parse_usage_line, usage_parser, ParseError};
use crate::matcher::{match_tokens, vals_view, MatchError, MatchErrorView, MatchResultView};
use crate::render::{help_text, render_synopsis, synopsis, synopsis_pieces};

verus! {

/// The documentation extracted from a script's leading comment block: three
/// optional lines, of which `usage` is expected to conform to the annotation
/// grammar.
#[derive(Debug)]
pub struct Docs {
    pub summary: Option<String>,
    pub description: Option<String>,
    pub usage: Option<String>,
}

/// Mathematical image of `Docs`.
#[verifier::ext_equal]
pub ghost struct DocsView {
    pub summary: Option<Seq<char>>,
    pub description: Option<Seq<char>>,
    pub usage: Option<Seq<char>>,
}

impl View for Docs {
    type V = DocsView;

    open spec fn view(&self) -> DocsView {
        DocsView {
            summary: match &self.summary {
                Some(x) => Some(x@),
                None => None,
            },
            description: match &self.description {
                Some(x) => Some(x@),
                None => None,
            },
            usage: match &self.usage {
                Some(x) => Some(x@),
                None => None,
            },
        }
    }
}

/// A subcommand's usage contract: the command's full name, its summary and
/// description as supplied, and its compiled argument specification.
#[derive(Debug)]
pub struct Usage {
    name: String,
    summary: Option<String>,
    description: Option<String>,
    command: Specification,
}

/// Mathematical image of `Usage`.
#[verifier::ext_equal]
pub ghost struct UsageView {
    pub name: Seq<char>,
    pub summary: Option<Seq<char>>,
    pub description: Option<Seq<char>>,
    pub command: SpecificationView,
}

impl View for Usage {
    type V = UsageView;

    closed spec fn view(&self) -> UsageView {
        UsageView {
            name: self.name@,
            summary: match &self.summary {
                Some(x) => Some(x@),
                None => None,
            },
            description: match &self.description {
                Some(x) => Some(x@),
                None => None,
            },
            command: self.command@,
        }
    }
}

fn clone_opt_string(o: &Option<String>) -> (r: Option<String>)
    ensures
        (match r {
            Some(x) => Some(x@),
            None => None,
        }) == (match o {
            Some(x) => Some(x@),
            None => None,
        }),
{
    match o {
        Some(x) => Some(x.clone()),
        None => None,
    }
}

impl Usage {
    /// Wraps a compiled specification with its display strings.
    pub fn from_command(
        name: String,
        summary: Option<String>,
        description: Option<String>,
        command: Specification,
    ) -> (r: Usage)
        ensures
            r@.name == name@,
            r@.summary == (match summary {
                Some(x) => Some(x@),
                None => None::<Seq<char>>,
            }),
            r@.description == (match description {
                Some(x) => Some(x@),
                None => None::<Seq<char>>,
            }),
            r@.command == command@,
    {
        Usage { name, summary, description, command }
    }

    /// The summary line, or the empty string where none was supplied.
    pub fn summary(&self) -> (r: String)
        ensures
            r@ == (match self@.summary {
                Some(x) => x,
                None => Seq::<char>::empty(),
            }),
    {
        match &self.summary {
            Some(x) => x.clone(),
            None => {
                let r = String::new();
                r
            },
        }
    }

    /// The compiled specification, for callers that match or render
    /// themselves.
    pub fn command(&self) -> (r: Specification)
        ensures
            r@ == self@.command,
    {
        self.command.duplicate()
    }

    /// The one-line usage synopsis.
    pub fn generate(&self) -> (r: String)
        ensures
            r@ == synopsis(self@.name, self@.command),
    {
        let v = render_synopsis(&self.name, &self.command);
        chars_to_string(&v)
    }

    /// The full help text.
    pub fn help(&self) -> (r: String)
        ensures
            r@ == help_text(self@.name, self@.summary, self@.description, self@.command),
    {
        let mut out: Vec<char> = Vec::new();
        match &self.summary {
            Some(x) => {
                let xc = crate::chars::str_to_chars(x.as_str());
                crate::chars::append_chars(&mut out, &xc);
                out.push('\n');
                out.push('\n');
            },
            None => {},
        }
        let syn = render_synopsis(&self.name, &self.command);
        crate::chars::append_chars(&mut out, &syn);
        match &self.description {
            Some(d) => {
                out.push('\n');
                out.push('\n');
                let dc = crate::chars::str_to_chars(d.as_str());
                crate::chars::append_chars(&mut out, &dc);
            },
            None => {},
        }
        proof {
            assert(out@ =~= help_text(self@.name, self@.summary, self@.description, self@.command));
        }
        chars_to_string(&out)
    }

    /// Matches the invocation tokens against this usage's specification and,
    /// on success, serializes the bindings into the flat export string; the
    /// matcher's structured failure otherwise. The invoked process is handed
    /// the export in one environment variable.
    pub fn parse_into_kv(&self, args: &Vec<String>) -> (r: Result<String, MatchError>)
        ensures
            r matches Ok(out) ==> match_tokens(self@.command, vals_view(args@)) matches Ok(m)
                && out@ == export_string(self@.command, m),
            r matches Err(e) ==> match_tokens(self@.command, vals_view(args@)) == Err::<
                MatchResultView,
                MatchErrorView,
            >(e@),
    {
        match self.command.match_invocation(args) {
            Ok(m) => Ok(export_matched(&self.command, &m)),
            Err(e) => Err(e),
        }
    }
}

/// Builds a subcommand's usage contract from its extracted documentation.
///
/// With a usage line present, the line must conform to the grammar in full:
/// its representation is compiled, and a line that does not conform is a
/// parse failure that blocks the subcommand — never a partial contract. With
/// no usage line, the subcommand stays invocable with arbitrary arguments:
/// the default catch-all specification validates nothing.
pub fn extract_usage(docs: &Docs, name: &str) -> (r: Result<Usage, ParseError>)
    ensures
        r matches Ok(us) ==> us@.name == name@ && us@.summary == docs@.summary
            && us@.description == docs@.description,
        docs@.usage matches Some(line) ==> (match parse_usage_line(line) {
            Some(u) => r matches Ok(us) && us@.command == compile_spec(u),
            None => r is Err,
        }),
        docs@.usage is None ==> (r matches Ok(us) && us@.command == default_spec()),
{
    let command = match &docs.usage {
        Some(line) => match usage_parser(line.as_str()) {
            Ok(u) => compile(&u),
            Err(e) => {
                return Err(e);
            },
        },
        None => default_specification(),
    };
    Ok(Usage::from_command(
        name.to_owned(),
        clone_opt_string(&docs.summary),
        clone_opt_string(&docs.description),
        command,
    ))
}

/// Compiling a representation with a catch-all, then matching any token list
/// — even one whose unconsumed tokens look like unknown flags — never yields
/// an unknown-flag failure: the catch-all absorbs every token the named
/// parameters do not consume, so once those are satisfied the match
/// succeeds, and the only failures left are a required parameter that no
/// token bound and a one-value flag left without its value.
pub proof fn lemma_compiled_catch_all_absorbs(u: crate::lang::UsageLangView, toks: Seq<Seq<char>>)
    requires
        u.rest is Some,
    ensures
        match_tokens(compile_spec(u), toks) matches Err(e) ==> (e is MissingRequired
            || e is MissingValue),
{
    crate::matcher::lemma_catch_all_absorption(compile_spec(u), toks);
}

/// An annotation declaring no arguments and no catch-all compiles to a
/// specification accepting exactly zero tokens: the empty invocation
/// matches, and any first token fails, as an unknown flag if it looks like
/// one and as an unexpected argument otherwise.
pub proof fn lemma_empty_annotation_boundary(u: crate::lang::UsageLangView, toks: Seq<Seq<char>>)
    requires
        u.arguments.len() == 0,
        u.rest is None,
        toks.len() > 0,
    ensures
        match_tokens(compile_spec(u), Seq::empty()) is Ok,
        match_tokens(compile_spec(u), toks) matches Err(e) && (e is UnknownFlag
            || e is UnexpectedArgument),
{
    let s = compile_spec(u);
    assert(s.params.len() == 0);
    crate::matcher::lemma_empty_specification_accepts_nothing(s);
    crate::matcher::lemma_empty_specification_rejects(s, toks);
}

/// Compiling the same representation twice yields specifications with one and
/// the same mathematical image, so the two behave identically under matching
/// of any token list and under rendering.
pub proof fn lemma_compile_idempotent(
    u: crate::lang::UsageLangView,
    s1: SpecificationView,
    s2: SpecificationView,
    toks: Seq<Seq<char>>,
)
    requires
        s1 == compile_spec(u),
        s2 == compile_spec(u),
    ensures
        match_tokens(s1, toks) == match_tokens(s2, toks),
        synopsis_pieces(s1) == synopsis_pieces(s2),
{
}

} // verus!
