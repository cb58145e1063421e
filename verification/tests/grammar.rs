use usagelang::grammar::usage_parser;
use usagelang::lang::{ArgBase, ArgSpec, UsageLang};

#[test]
fn parse_without_rest() {
    let input = "# Usage: {cmd} name -f --long [opt] [-o] [--longopt] [--value=VALUE]";
    let result = usage_parser(input).unwrap();
    assert_eq!(
        result,
        UsageLang {
            arguments: vec![
                ArgSpec::Required(ArgBase::Positional("name".to_owned())),
                ArgSpec::Required(ArgBase::Short('f')),
                ArgSpec::Required(ArgBase::Long("long".to_owned(), None)),
                ArgSpec::Optional(ArgBase::Positional("opt".to_owned())),
                ArgSpec::Optional(ArgBase::Short('o')),
                ArgSpec::Optional(ArgBase::Long("longopt".to_owned(), None)),
                ArgSpec::Optional(ArgBase::Long("value".to_owned(), Some("VALUE".to_owned()))),
            ],
            rest: None,
        }
    );
}

#[test]
fn parse_with_rest() {
    let input = "# Usage: {cmd} name [opt] [rest]...";
    let result = usage_parser(input).unwrap();
    assert_eq!(
        result,
        UsageLang {
            arguments: vec![
                ArgSpec::Required(ArgBase::Positional("name".to_owned())),
                ArgSpec::Optional(ArgBase::Positional("opt".to_owned())),
            ],
            rest: Some("rest".to_owned()),
        }
    );
}

#[test]
fn parse_bare_prefix_yields_empty_language() {
    let result = usage_parser("# Usage: {cmd}").unwrap();
    assert_eq!(result, UsageLang { arguments: vec![], rest: None });
}

#[test]
fn parse_lone_bracketed_name_with_ellipsis_is_rest() {
    let result = usage_parser("# Usage: {cmd} [opt]...").unwrap();
    assert_eq!(result, UsageLang { arguments: vec![], rest: Some("opt".to_owned()) });
}

#[test]
fn parse_bracketed_name_without_ellipsis_is_optional_positional() {
    let result = usage_parser("# Usage: {cmd} [opt]").unwrap();
    assert_eq!(
        result,
        UsageLang {
            arguments: vec![ArgSpec::Optional(ArgBase::Positional("opt".to_owned()))],
            rest: None,
        }
    );
}

#[test]
fn parse_rejects_missing_prefix() {
    assert!(usage_parser("Usage: {cmd} name").is_err());
}

#[test]
fn parse_rejects_missing_cmd_token() {
    assert!(usage_parser("# Usage: name").is_err());
}

#[test]
fn parse_rejects_ellipsis_on_required_positional() {
    assert!(usage_parser("# Usage: {cmd} name...").is_err());
}

#[test]
fn parse_rejects_unclosed_bracket() {
    assert!(usage_parser("# Usage: {cmd} [opt").is_err());
}

#[test]
fn parse_rejects_lowercase_value_placeholder() {
    assert!(usage_parser("# Usage: {cmd} [--value=val]").is_err());
}

#[test]
fn parse_rejects_trailing_garbage() {
    assert!(usage_parser("# Usage: {cmd} name !").is_err());
}

#[test]
fn parse_error_reports_a_position_within_the_line() {
    let line = "# Usage: {cmd} name !";
    let err = usage_parser(line).unwrap_err();
    assert!(err.position <= line.chars().count());
}

#[test]
fn parse_allows_spaces_inside_optional_brackets() {
    let result = usage_parser("# Usage: {cmd} [ opt ]").unwrap();
    assert_eq!(
        result,
        UsageLang {
            arguments: vec![ArgSpec::Optional(ArgBase::Positional("opt".to_owned()))],
            rest: None,
        }
    );
}

#[test]
fn parse_rejects_spaces_inside_rest_brackets() {
    assert!(usage_parser("# Usage: {cmd} [ rest ]...").is_err());
}

#[test]
fn parse_value_placeholder_requires_equals_sign() {
    let result = usage_parser("# Usage: {cmd} --long VALUE");
    // Without `=`, `VALUE` reads as a separate required positional.
    assert_eq!(
        result.unwrap(),
        UsageLang {
            arguments: vec![
                ArgSpec::Required(ArgBase::Long("long".to_owned(), None)),
                ArgSpec::Required(ArgBase::Positional("VALUE".to_owned())),
            ],
            rest: None,
        }
    );
}
