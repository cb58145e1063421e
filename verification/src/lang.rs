//! The intermediate representation of one usage annotation line: an ordered
//! sequence of argument declarations plus an optional trailing catch-all.

use vstd::prelude::*;

verus! {

/// The unqualified shape of one declared argument.
#[derive(Debug, PartialEq)]
pub enum ArgBase {
    /// A free-form positional argument; its order among positionals binds it.
    Positional(String),
    /// A single-letter boolean flag, written `-c`, carrying no value.
    Short(char),
    /// A `--name` flag; with a placeholder it requires exactly one value, and
    /// the placeholder (non-empty, uppercase ASCII letters) is its display
    /// name.
    Long(String, Option<String>),
}

/// One declared argument, with its requiredness.
#[derive(Debug, PartialEq)]
pub enum ArgSpec {
    Required(ArgBase),
    Optional(ArgBase),
}

/// The parsed form of one annotation line. `arguments` keeps declaration
/// order; `rest`, if present, names a trailing variadic catch-all.
#[derive(Debug, PartialEq)]
pub struct UsageLang {
    pub arguments: Vec<ArgSpec>,
    pub rest: Option<String>,
}

/// Mathematical image of `ArgBase`.
#[verifier::ext_equal]
pub ghost enum ArgBaseView {
    Positional(Seq<char>),
    Short(char),
    Long(Seq<char>, Option<Seq<char>>),
}

/// Mathematical image of `ArgSpec`.
#[verifier::ext_equal]
pub ghost enum ArgSpecView {
    Required(ArgBaseView),
    Optional(ArgBaseView),
}

/// Mathematical image of `UsageLang`.
#[verifier::ext_equal]
pub ghost struct UsageLangView {
    pub arguments: Seq<ArgSpecView>,
    pub rest: Option<Seq<char>>,
}

impl View for ArgBase {
    type V = ArgBaseView;

    open spec fn view(&self) -> ArgBaseView {
        match self {
            ArgBase::Positional(name) => ArgBaseView::Positional(name@),
            ArgBase::Short(c) => ArgBaseView::Short(*c),
            ArgBase::Long(name, value) => ArgBaseView::Long(
                name@,
                match value {
                    Some(v) => Some(v@),
                    None => None,
                },
            ),
        }
    }
}

impl View for ArgSpec {
    type V = ArgSpecView;

    open spec fn view(&self) -> ArgSpecView {
        match self {
            ArgSpec::Required(base) => ArgSpecView::Required(base@),
            ArgSpec::Optional(base) => ArgSpecView::Optional(base@),
        }
    }
}

impl View for UsageLang {
    type V = UsageLangView;

    open spec fn view(&self) -> UsageLangView {
        UsageLangView {
            arguments: self.arguments@.map_values(|a: ArgSpec| a@),
            rest: match &self.rest {
                Some(r) => Some(r@),
                None => None,
            },
        }
    }
}

} // verus!
