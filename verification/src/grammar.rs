//! The annotation grammar. `parse_usage_line` is the mathematical definition
//! of the language: a recursive-descent parse with ordered alternation over a
//! character sequence, committing to the first alternative that succeeds.
//! `usage_parser` is the executable parser, proved to return exactly what the
//! definition says, for every line.
//!
//! The grammar, informally:
//! ```text
//! usage      := "# Usage:" WS "{cmd}" WS argument* rest? END
//! argument   := (optional | required) LOOKAHEAD(not '.' | END)
//! optional   := "[" base "]"
//! required   := base
//! base       := positional | short | long
//! positional := identifier
//! short      := "-" ALPHA
//! long       := "--" identifier ("=" VALUE)?
//! rest       := "[" identifier "]" "..."
//! VALUE      := UPPER+
//! ```
//! The lookahead after each argument is zero-width: it keeps a plain optional
//! positional such as `[rest]` from swallowing the start of the trailing
//! `[rest]...` production.

use vstd::prelude::*;

use crate::chars::{chars_to_string, str_to_chars};
use crate::lang::{ArgBase, ArgBaseView, ArgSpec, ArgSpecView, UsageLang, UsageLangView};

verus! {

/// A structured parse failure: the position (in characters) at which the line
/// stopped conforming to the grammar.
#[derive(Debug, PartialEq, Eq, Structural, Clone, Copy)]
pub struct ParseError {
    pub position: usize,
}

// ---------------------------------------------------------------------------
// Character classes
// ---------------------------------------------------------------------------

pub open spec fn is_space(c: char) -> bool {
    c == ' ' || c == '\t' || c == '\n' || c == '\r'
}

pub open spec fn is_ident_start(c: char) -> bool {
    c == '_' || ('a' <= c && c <= 'z') || ('A' <= c && c <= 'Z')
}

pub open spec fn is_ident_char(c: char) -> bool {
    is_ident_start(c) || ('0' <= c && c <= '9')
}

pub open spec fn is_upper(c: char) -> bool {
    'A' <= c && c <= 'Z'
}

pub open spec fn is_alpha(c: char) -> bool {
    ('a' <= c && c <= 'z') || ('A' <= c && c <= 'Z')
}

// ---------------------------------------------------------------------------
// Scanners
// ---------------------------------------------------------------------------

/// The first position at or after `i` whose character fails `pred`, or the
/// end of the sequence.
pub open spec fn scan(s: Seq<char>, i: int, pred: spec_fn(char) -> bool) -> int
    decreases s.len() - i,
{
    if 0 <= i < s.len() && pred(s[i]) {
        scan(s, i + 1, pred)
    } else {
        i
    }
}

pub proof fn lemma_scan(s: Seq<char>, i: int, pred: spec_fn(char) -> bool)
    requires
        0 <= i <= s.len(),
    ensures
        i <= scan(s, i, pred) <= s.len(),
        forall|j: int| i <= j < scan(s, i, pred) ==> pred(s[j]),
    decreases s.len() - i,
{
    if i < s.len() && pred(s[i]) {
        lemma_scan(s, i + 1, pred);
    }
}

pub open spec fn skip_space(s: Seq<char>, i: int) -> int {
    scan(s, i, |c: char| is_space(c))
}

pub open spec fn ident_end(s: Seq<char>, i: int) -> int {
    scan(s, i, |c: char| is_ident_char(c))
}

pub open spec fn upper_end(s: Seq<char>, i: int) -> int {
    scan(s, i, |c: char| is_upper(c))
}

fn is_space_x(c: char) -> (b: bool)
    ensures
        b == is_space(c),
{
    c == ' ' || c == '\t' || c == '\n' || c == '\r'
}

fn skip_space_x(s: &Vec<char>, i: usize) -> (r: usize)
    requires
        i <= s.len(),
    ensures
        r as int == skip_space(s@, i as int),
        i <= r <= s.len(),
    decreases s.len() - i,
{
    if i < s.len() && is_space_x(s[i]) {
        skip_space_x(s, i + 1)
    } else {
        i
    }
}

fn ident_end_x(s: &Vec<char>, i: usize) -> (r: usize)
    requires
        i <= s.len(),
    ensures
        r as int == ident_end(s@, i as int),
        i <= r <= s.len(),
    decreases s.len() - i,
{
    if i < s.len() && (s[i] == '_' || ('a' <= s[i] && s[i] <= 'z') || ('A' <= s[i] && s[i] <= 'Z')
        || ('0' <= s[i] && s[i] <= '9')) {
        ident_end_x(s, i + 1)
    } else {
        i
    }
}

fn upper_end_x(s: &Vec<char>, i: usize) -> (r: usize)
    requires
        i <= s.len(),
    ensures
        r as int == upper_end(s@, i as int),
        i <= r <= s.len(),
    decreases s.len() - i,
{
    if i < s.len() && 'A' <= s[i] && s[i] <= 'Z' {
        upper_end_x(s, i + 1)
    } else {
        i
    }
}

/// The characters of `s` from `i` (inclusive) to `j` (exclusive).
fn subvec(s: &Vec<char>, i: usize, j: usize) -> (r: Vec<char>)
    requires
        i <= j <= s.len(),
    ensures
        r@ == s@.subrange(i as int, j as int),
{
    let mut r: Vec<char> = Vec::new();
    let mut k: usize = i;
    while k < j
        invariant
            i <= k <= j <= s.len(),
            r@ == s@.subrange(i as int, k as int),
        decreases j - k,
    {
        r.push(s[k]);
        k = k + 1;
        proof {
            assert(s@.subrange(i as int, k as int)
                =~= s@.subrange(i as int, k - 1).push(s@[k - 1]));
        }
    }
    r
}

// ---------------------------------------------------------------------------
// Tokens: identifiers, values, literals
// ---------------------------------------------------------------------------

/// A well-formed identifier: non-empty, a letter or underscore first, then
/// letters, digits and underscores.
pub open spec fn is_ident_seq(x: Seq<char>) -> bool {
    x.len() > 0 && is_ident_start(x[0]) && forall|j: int| 0 <= j < x.len() ==> is_ident_char(x[j])
}

/// A well-formed value placeholder: non-empty, solely uppercase ASCII
/// letters.
pub open spec fn is_upper_seq(x: Seq<char>) -> bool {
    x.len() > 0 && forall|j: int| 0 <= j < x.len() ==> is_upper(x[j])
}

/// Every name the grammar can produce is well formed.
pub open spec fn wf_base(b: ArgBaseView) -> bool {
    match b {
        ArgBaseView::Positional(name) => is_ident_seq(name),
        ArgBaseView::Short(c) => is_alpha(c),
        ArgBaseView::Long(name, value) => is_ident_seq(name) && match value {
            Some(v) => is_upper_seq(v),
            None => true,
        },
    }
}

pub open spec fn wf_arg(a: ArgSpecView) -> bool {
    match a {
        ArgSpecView::Required(b) => wf_base(b),
        ArgSpecView::Optional(b) => wf_base(b),
    }
}

/// The representation invariant the grammar guarantees: every declared name
/// is a well-formed identifier, every placeholder non-empty uppercase, and
/// the catch-all's name, where declared, a well-formed identifier.
pub open spec fn wf_usage_lang(u: UsageLangView) -> bool {
    (forall|j: int| 0 <= j < u.arguments.len() ==> wf_arg(u.arguments[j])) && match u.rest {
        Some(name) => is_ident_seq(name),
        None => true,
    }
}

/// An identifier: a letter or underscore, then letters, digits, underscores.
pub open spec fn parse_ident(s: Seq<char>, i: int) -> Option<(Seq<char>, int)> {
    if 0 <= i < s.len() && is_ident_start(s[i]) {
        Some((s.subrange(i, ident_end(s, i + 1)), ident_end(s, i + 1)))
    } else {
        None
    }
}

pub proof fn lemma_parse_ident(s: Seq<char>, i: int)
    requires
        0 <= i <= s.len(),
    ensures
        parse_ident(s, i) matches Some((name, k)) ==> i < k <= s.len() && is_ident_seq(name),
{
    if i < s.len() && is_ident_start(s[i]) {
        lemma_scan(s, i + 1, |c: char| is_ident_char(c));
    }
}

fn parse_ident_x(s: &Vec<char>, i: usize) -> (r: Option<(Vec<char>, usize)>)
    requires
        i <= s.len(),
    ensures
        r matches Some((name, k)) ==> parse_ident(s@, i as int) == Some((name@, k as int))
            && i < k <= s.len(),
        r is None ==> parse_ident(s@, i as int) is None,
{
    if i < s.len() && (s[i] == '_' || ('a' <= s[i] && s[i] <= 'z') || ('A' <= s[i] && s[i] <= 'Z')) {
        let j = ident_end_x(s, i + 1);
        Some((subvec(s, i, j), j))
    } else {
        None
    }
}

/// A value placeholder: one or more uppercase ASCII letters.
pub open spec fn parse_value(s: Seq<char>, i: int) -> Option<(Seq<char>, int)> {
    if 0 <= i < s.len() && is_upper(s[i]) {
        Some((s.subrange(i, upper_end(s, i + 1)), upper_end(s, i + 1)))
    } else {
        None
    }
}

pub proof fn lemma_parse_value(s: Seq<char>, i: int)
    requires
        0 <= i <= s.len(),
    ensures
        parse_value(s, i) matches Some((v, k)) ==> i < k <= s.len() && is_upper_seq(v),
{
    if i < s.len() && is_upper(s[i]) {
        lemma_scan(s, i + 1, |c: char| is_upper(c));
    }
}

fn parse_value_x(s: &Vec<char>, i: usize) -> (r: Option<(Vec<char>, usize)>)
    requires
        i <= s.len(),
    ensures
        r matches Some((v, k)) ==> parse_value(s@, i as int) == Some((v@, k as int))
            && i < k <= s.len(),
        r is None ==> parse_value(s@, i as int) is None,
{
    if i < s.len() && 'A' <= s[i] && s[i] <= 'Z' {
        let j = upper_end_x(s, i + 1);
        Some((subvec(s, i, j), j))
    } else {
        None
    }
}

pub open spec fn prefix_chars() -> Seq<char> {
    seq!['#', ' ', 'U', 's', 'a', 'g', 'e', ':']
}

pub open spec fn cmd_chars() -> Seq<char> {
    seq!['{', 'c', 'm', 'd', '}']
}

/// Whether the literal `lit` stands at position `i` of `s`.
pub open spec fn lit_at(s: Seq<char>, i: int, lit: Seq<char>) -> bool {
    0 <= i && i + lit.len() <= s.len() && s.subrange(i, i + lit.len()) == lit
}

fn match_prefix_x(s: &Vec<char>, i: usize) -> (b: bool)
    requires
        i <= s.len(),
    ensures
        b == lit_at(s@, i as int, prefix_chars()),
{
    let b = s.len() - i >= 8 && s[i] == '#' && s[i + 1] == ' ' && s[i + 2] == 'U'
        && s[i + 3] == 's' && s[i + 4] == 'a' && s[i + 5] == 'g' && s[i + 6] == 'e'
        && s[i + 7] == ':';
    proof {
        if b {
            assert(s@.subrange(i as int, i + 8) =~= prefix_chars());
        } else {
            if i + 8 <= s.len() && s@.subrange(i as int, i + 8) == prefix_chars() {
                assert(s@[i as int] == prefix_chars()[0]);
                assert(s@[i + 1] == prefix_chars()[1]);
                assert(s@[i + 2] == prefix_chars()[2]);
                assert(s@[i + 3] == prefix_chars()[3]);
                assert(s@[i + 4] == prefix_chars()[4]);
                assert(s@[i + 5] == prefix_chars()[5]);
                assert(s@[i + 6] == prefix_chars()[6]);
                assert(s@[i + 7] == prefix_chars()[7]);
            }
        }
    }
    b
}

fn match_cmd_x(s: &Vec<char>, i: usize) -> (b: bool)
    requires
        i <= s.len(),
    ensures
        b == lit_at(s@, i as int, cmd_chars()),
{
    let b = s.len() - i >= 5 && s[i] == '{' && s[i + 1] == 'c' && s[i + 2] == 'm'
        && s[i + 3] == 'd' && s[i + 4] == '}';
    proof {
        if b {
            assert(s@.subrange(i as int, i + 5) =~= cmd_chars());
        } else {
            if i + 5 <= s.len() && s@.subrange(i as int, i + 5) == cmd_chars() {
                assert(s@[i as int] == cmd_chars()[0]);
                assert(s@[i + 1] == cmd_chars()[1]);
                assert(s@[i + 2] == cmd_chars()[2]);
                assert(s@[i + 3] == cmd_chars()[3]);
                assert(s@[i + 4] == cmd_chars()[4]);
            }
        }
    }
    b
}

// ---------------------------------------------------------------------------
// Productions
// ---------------------------------------------------------------------------

/// `base := positional | short | long`, with surrounding whitespace skipped.
/// The alternatives are disjoint by their leading characters.
pub open spec fn parse_base(s: Seq<char>, i: int) -> Option<(ArgBaseView, int)> {
    let j = skip_space(s, i);
    if j < s.len() && is_ident_start(s[j]) {
        match parse_ident(s, j) {
            Some((name, k)) => Some((ArgBaseView::Positional(name), skip_space(s, k))),
            None => None,
        }
    } else if j + 1 < s.len() && s[j] == '-' && s[j + 1] == '-' {
        match parse_ident(s, j + 2) {
            Some((name, k)) => if k < s.len() && s[k] == '=' {
                match parse_value(s, k + 1) {
                    Some((v, m)) => Some((ArgBaseView::Long(name, Some(v)), skip_space(s, m))),
                    None => Some((ArgBaseView::Long(name, None), skip_space(s, k))),
                }
            } else {
                Some((ArgBaseView::Long(name, None), skip_space(s, k)))
            },
            None => None,
        }
    } else if j + 1 < s.len() && s[j] == '-' && is_alpha(s[j + 1]) {
        Some((ArgBaseView::Short(s[j + 1]), skip_space(s, j + 2)))
    } else {
        None
    }
}

pub proof fn lemma_parse_base(s: Seq<char>, i: int)
    requires
        0 <= i <= s.len(),
    ensures
        parse_base(s, i) matches Some((b, k)) ==> i < k <= s.len() && wf_base(b),
{
    let j = skip_space(s, i);
    lemma_scan(s, i, |c: char| is_space(c));
    if j < s.len() && is_ident_start(s[j]) {
        lemma_parse_ident(s, j);
        if let Some((name, k)) = parse_ident(s, j) {
            lemma_scan(s, k, |c: char| is_space(c));
        }
    } else if j + 1 < s.len() && s[j] == '-' && s[j + 1] == '-' {
        lemma_parse_ident(s, j + 2);
        if let Some((name, k)) = parse_ident(s, j + 2) {
            lemma_scan(s, k, |c: char| is_space(c));
            if k < s.len() && s[k] == '=' {
                lemma_parse_value(s, k + 1);
                if let Some((v, m)) = parse_value(s, k + 1) {
                    lemma_scan(s, m, |c: char| is_space(c));
                }
            }
        }
    } else if j + 1 < s.len() && s[j] == '-' && is_alpha(s[j + 1]) {
        lemma_scan(s, j + 2, |c: char| is_space(c));
    }
}

fn parse_base_x(s: &Vec<char>, i: usize) -> (r: Option<(ArgBase, usize)>)
    requires
        i <= s.len(),
    ensures
        r matches Some((b, k)) ==> parse_base(s@, i as int) == Some((b@, k as int))
            && i < k <= s.len(),
        r is None ==> parse_base(s@, i as int) is None,
{
    proof {
        lemma_parse_base(s@, i as int);
    }
    let j = skip_space_x(s, i);
    if j < s.len() && (s[j] == '_' || ('a' <= s[j] && s[j] <= 'z') || ('A' <= s[j] && s[j] <= 'Z')) {
        match parse_ident_x(s, j) {
            Some((name, k)) => {
                let end = skip_space_x(s, k);
                Some((ArgBase::Positional(chars_to_string(&name)), end))
            },
            None => None,
        }
    } else if j < s.len() && s[j] == '-' && j + 1 < s.len() && s[j + 1] == '-' {
        match parse_ident_x(s, j + 2) {
            Some((name, k)) => {
                if k < s.len() && s[k] == '=' {
                    match parse_value_x(s, k + 1) {
                        Some((v, m)) => {
                            let end = skip_space_x(s, m);
                            Some((ArgBase::Long(
                                chars_to_string(&name),
                                Some(chars_to_string(&v)),
                            ), end))
                        },
                        None => {
                            let end = skip_space_x(s, k);
                            Some((ArgBase::Long(chars_to_string(&name), None), end))
                        },
                    }
                } else {
                    let end = skip_space_x(s, k);
                    Some((ArgBase::Long(chars_to_string(&name), None), end))
                }
            },
            None => None,
        }
    } else if j < s.len() && s[j] == '-' && j + 1 < s.len()
        && (('a' <= s[j + 1] && s[j + 1] <= 'z') || ('A' <= s[j + 1] && s[j + 1] <= 'Z')) {
        let end = skip_space_x(s, j + 2);
        Some((ArgBase::Short(s[j + 1]), end))
    } else {
        None
    }
}

/// `optional := "[" base "]"`, with surrounding whitespace skipped.
pub open spec fn parse_optional(s: Seq<char>, i: int) -> Option<(ArgBaseView, int)> {
    let j = skip_space(s, i);
    if j < s.len() && s[j] == '[' {
        match parse_base(s, j + 1) {
            Some((b, k)) => if k < s.len() && s[k] == ']' {
                Some((b, skip_space(s, k + 1)))
            } else {
                None
            },
            None => None,
        }
    } else {
        None
    }
}

pub proof fn lemma_parse_optional(s: Seq<char>, i: int)
    requires
        0 <= i <= s.len(),
    ensures
        parse_optional(s, i) matches Some((b, k)) ==> i < k <= s.len() && wf_base(b),
{
    let j = skip_space(s, i);
    lemma_scan(s, i, |c: char| is_space(c));
    if j < s.len() && s[j] == '[' {
        lemma_parse_base(s, j + 1);
        if let Some((b, k)) = parse_base(s, j + 1) {
            if k < s.len() && s[k] == ']' {
                lemma_scan(s, k + 1, |c: char| is_space(c));
            }
        }
    }
}

fn parse_optional_x(s: &Vec<char>, i: usize) -> (r: Option<(ArgBase, usize)>)
    requires
        i <= s.len(),
    ensures
        r matches Some((b, k)) ==> parse_optional(s@, i as int) == Some((b@, k as int))
            && i < k <= s.len(),
        r is None ==> parse_optional(s@, i as int) is None,
{
    proof {
        lemma_parse_optional(s@, i as int);
    }
    let j = skip_space_x(s, i);
    if j < s.len() && s[j] == '[' {
        match parse_base_x(s, j + 1) {
            Some((b, k)) => {
                if k < s.len() && s[k] == ']' {
                    let end = skip_space_x(s, k + 1);
                    Some((b, end))
                } else {
                    None
                }
            },
            None => None,
        }
    } else {
        None
    }
}

/// `argument := (optional | required) LOOKAHEAD(not '.' | END)`. Ordered
/// alternation: `optional` is attempted first. The lookahead consumes
/// nothing; it fails an argument whose next character is a literal `.`, so
/// that the trailing `rest` production can claim it instead.
pub open spec fn parse_argument(s: Seq<char>, i: int) -> Option<(ArgSpecView, int)> {
    let attempt = match parse_optional(s, i) {
        Some((b, j)) => Some((ArgSpecView::Optional(b), j)),
        None => match parse_base(s, i) {
            Some((b, j)) => Some((ArgSpecView::Required(b), j)),
            None => None,
        },
    };
    match attempt {
        Some((a, j)) => if j >= s.len() || s[j] != '.' {
            Some((a, j))
        } else {
            None
        },
        None => None,
    }
}

pub proof fn lemma_parse_argument(s: Seq<char>, i: int)
    requires
        0 <= i <= s.len(),
    ensures
        parse_argument(s, i) matches Some((a, k)) ==> i < k <= s.len() && wf_arg(a),
{
    lemma_parse_optional(s, i);
    lemma_parse_base(s, i);
}

fn parse_argument_x(s: &Vec<char>, i: usize) -> (r: Option<(ArgSpec, usize)>)
    requires
        i <= s.len(),
    ensures
        r matches Some((a, k)) ==> parse_argument(s@, i as int) == Some((a@, k as int))
            && i < k <= s.len(),
        r is None ==> parse_argument(s@, i as int) is None,
{
    proof {
        lemma_parse_argument(s@, i as int);
    }
    let attempt = match parse_optional_x(s, i) {
        Some((b, j)) => Some((ArgSpec::Optional(b), j)),
        None => match parse_base_x(s, i) {
            Some((b, j)) => Some((ArgSpec::Required(b), j)),
            None => None,
        },
    };
    match attempt {
        Some((a, j)) => {
            if j >= s.len() || s[j] != '.' {
                Some((a, j))
            } else {
                None
            }
        },
        None => None,
    }
}

/// `argument*`: arguments parsed greedily until one fails to parse; never
/// fails itself, ending where the last argument ended.
pub open spec fn parse_arguments(s: Seq<char>, i: int) -> (Seq<ArgSpecView>, int)
    decreases s.len() - i,
{
    match parse_argument(s, i) {
        Some((a, j)) => if i < j <= s.len() {
            let (tail, k) = parse_arguments(s, j);
            (seq![a] + tail, k)
        } else {
            (seq![], i)
        },
        None => (seq![], i),
    }
}

pub proof fn lemma_parse_arguments(s: Seq<char>, i: int)
    requires
        0 <= i <= s.len(),
    ensures
        i <= parse_arguments(s, i).1 <= s.len(),
        forall|j: int| 0 <= j < parse_arguments(s, i).0.len() ==> wf_arg(parse_arguments(s, i).0[j]),
    decreases s.len() - i,
{
    lemma_parse_argument(s, i);
    if let Some((a, j)) = parse_argument(s, i) {
        lemma_parse_arguments(s, j);
        assert forall|l: int| 0 <= l < parse_arguments(s, i).0.len()
            implies wf_arg(parse_arguments(s, i).0[l]) by {
            if l > 0 {
                assert(parse_arguments(s, i).0[l] == parse_arguments(s, j).0[l - 1]);
            }
        }
    }
}

fn parse_arguments_x(s: &Vec<char>, i: usize) -> (r: (Vec<ArgSpec>, usize))
    requires
        i <= s.len(),
    ensures
        parse_arguments(s@, i as int).0 == r.0@.map_values(|a: ArgSpec| a@),
        parse_arguments(s@, i as int).1 == r.1 as int,
        i <= r.1 <= s.len(),
{
    let mut acc: Vec<ArgSpec> = Vec::new();
    let mut pos: usize = i;
    loop
        invariant
            i <= pos <= s.len(),
            parse_arguments(s@, i as int).0
                == acc@.map_values(|a: ArgSpec| a@) + parse_arguments(s@, pos as int).0,
            parse_arguments(s@, i as int).1 == parse_arguments(s@, pos as int).1,
        decreases s.len() - pos,
    {
        match parse_argument_x(s, pos) {
            Some((a, j)) => {
                proof {
                    lemma_parse_arguments(s@, j as int);
                    assert(parse_arguments(s@, pos as int).0
                        =~= seq![a@] + parse_arguments(s@, j as int).0);
                }
                let ghost old_acc = acc@;
                acc.push(a);
                proof {
                    assert(acc@.map_values(|a: ArgSpec| a@)
                        =~= old_acc.map_values(|a: ArgSpec| a@) + seq![a@]);
                    assert(old_acc.map_values(|a: ArgSpec| a@) + parse_arguments(s@, pos as int).0
                        =~= acc@.map_values(|a: ArgSpec| a@) + parse_arguments(s@, j as int).0);
                }
                pos = j;
            },
            None => {
                proof {
                    assert(parse_arguments(s@, pos as int).0 =~= Seq::<ArgSpecView>::empty());
                    assert(acc@.map_values(|a: ArgSpec| a@) + Seq::<ArgSpecView>::empty()
                        =~= acc@.map_values(|a: ArgSpec| a@));
                }
                return (acc, pos);
            },
        }
    }
}

/// `rest := "[" identifier "]..."`, strict inside the brackets, whitespace
/// skipped around the whole production.
pub open spec fn parse_rest(s: Seq<char>, i: int) -> Option<(Seq<char>, int)> {
    let j = skip_space(s, i);
    if j < s.len() && s[j] == '[' {
        match parse_ident(s, j + 1) {
            Some((name, k)) => if k + 4 <= s.len() && s[k] == ']' && s[k + 1] == '.'
                && s[k + 2] == '.' && s[k + 3] == '.' {
                Some((name, skip_space(s, k + 4)))
            } else {
                None
            },
            None => None,
        }
    } else {
        None
    }
}

pub proof fn lemma_parse_rest(s: Seq<char>, i: int)
    requires
        0 <= i <= s.len(),
    ensures
        parse_rest(s, i) matches Some((name, k)) ==> i < k <= s.len() && is_ident_seq(name),
{
    let j = skip_space(s, i);
    lemma_scan(s, i, |c: char| is_space(c));
    if j < s.len() && s[j] == '[' {
        lemma_parse_ident(s, j + 1);
        if let Some((name, k)) = parse_ident(s, j + 1) {
            if k + 4 <= s.len() {
                lemma_scan(s, k + 4, |c: char| is_space(c));
            }
        }
    }
}

fn parse_rest_x(s: &Vec<char>, i: usize) -> (r: Option<(Vec<char>, usize)>)
    requires
        i <= s.len(),
    ensures
        r matches Some((name, k)) ==> parse_rest(s@, i as int) == Some((name@, k as int))
            && i < k <= s.len(),
        r is None ==> parse_rest(s@, i as int) is None,
{
    proof {
        lemma_parse_rest(s@, i as int);
    }
    let j = skip_space_x(s, i);
    if j < s.len() && s[j] == '[' {
        match parse_ident_x(s, j + 1) {
            Some((name, k)) => {
                if s.len() - k >= 4 && s[k] == ']' && s[k + 1] == '.' && s[k + 2] == '.'
                    && s[k + 3] == '.' {
                    let end = skip_space_x(s, k + 4);
                    Some((name, end))
                } else {
                    None
                }
            },
            None => None,
        }
    } else {
        None
    }
}

// ---------------------------------------------------------------------------
// The whole line
// ---------------------------------------------------------------------------

/// The language: what one annotation line means, if anything. Parsing is
/// all-or-nothing; a line that does not conform in full means nothing.
pub open spec fn parse_usage_line(s: Seq<char>) -> Option<UsageLangView> {
    let i0 = skip_space(s, 0);
    if lit_at(s, i0, prefix_chars()) {
        let i1 = skip_space(s, i0 + prefix_chars().len());
        if lit_at(s, i1, cmd_chars()) {
            let i2 = skip_space(s, i1 + cmd_chars().len());
            let (args, i3) = parse_arguments(s, i2);
            let (rest, i4): (Option<Seq<char>>, int) = match parse_rest(s, i3) {
                Some((name, j)) => (Some(name), j),
                None => (None, i3),
            };
            if i4 == s.len() {
                Some(UsageLangView { arguments: args, rest })
            } else {
                None
            }
        } else {
            None
        }
    } else {
        None
    }
}

/// Whatever representation the grammar accepts satisfies the representation
/// invariant: every declared name is a well-formed identifier, every short
/// flag a letter, and every value placeholder non-empty uppercase ASCII.
pub proof fn lemma_grammar_well_formed(s: Seq<char>)
    ensures
        parse_usage_line(s) matches Some(u) ==> wf_usage_lang(u),
{
    let i0 = skip_space(s, 0);
    lemma_scan(s, 0, |c: char| is_space(c));
    if lit_at(s, i0, prefix_chars()) {
        let i1 = skip_space(s, i0 + prefix_chars().len());
        lemma_scan(s, i0 + prefix_chars().len(), |c: char| is_space(c));
        if lit_at(s, i1, cmd_chars()) {
            let i2 = skip_space(s, i1 + cmd_chars().len());
            lemma_scan(s, i1 + cmd_chars().len(), |c: char| is_space(c));
            lemma_parse_arguments(s, i2);
            lemma_parse_rest(s, parse_arguments(s, i2).1);
        }
    }
}

/// Parses one annotation line, returning its representation exactly when the
/// line conforms to the grammar, and the first unparseable position when it
/// does not.
pub fn usage_parser(line: &str) -> (r: Result<UsageLang, ParseError>)
    ensures
        r matches Ok(u) ==> parse_usage_line(line@) == Some(u@),
        r is Err ==> parse_usage_line(line@) is None,
        r matches Err(e) ==> e.position <= line@.len(),
{
    let s = str_to_chars(line);
    let i0 = skip_space_x(&s, 0);
    if !match_prefix_x(&s, i0) {
        return Err(ParseError { position: i0 });
    }
    let i1 = skip_space_x(&s, i0 + 8);
    if !match_cmd_x(&s, i1) {
        return Err(ParseError { position: i1 });
    }
    let i2 = skip_space_x(&s, i1 + 5);
    let (args, i3) = parse_arguments_x(&s, i2);
    let (rest, i4) = match parse_rest_x(&s, i3) {
        Some((name, j)) => (Some(chars_to_string(&name)), j),
        None => (None, i3),
    };
    if i4 == s.len() {
        Ok(UsageLang { arguments: args, rest })
    } else {
        Err(ParseError { position: i4 })
    }
}

} // verus!
