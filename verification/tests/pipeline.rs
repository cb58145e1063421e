use usagelang::argspec::{compile, default_specification, ParamKind, Specification};
use usagelang::config::{Color, Config};
use usagelang::export::export_matched;
use usagelang::grammar::usage_parser;
use usagelang::matcher::MatchError;
use usagelang::usage::{extract_usage, Docs, Usage};

fn strings(tokens: &[&str]) -> Vec<String> {
    tokens.iter().map(|t| t.to_string()).collect()
}

fn scenario_specification() -> Specification {
    let input = "# Usage: {cmd} name -f --long [opt] [-o] [--longopt] [--value=VALUE]";
    compile(&usage_parser(input).unwrap())
}

#[test]
fn compile_scenario_parameters() {
    let spec = scenario_specification();
    assert_eq!(spec.params.len(), 7);
    assert!(spec.rest.is_none());
    assert_eq!(spec.params[0].id, "name");
    assert_eq!(spec.params[0].kind, ParamKind::Positional);
    assert!(spec.params[0].required);
    assert_eq!(spec.params[1].id, "f");
    assert_eq!(spec.params[1].kind, ParamKind::ShortFlag);
    assert!(spec.params[1].required);
    assert_eq!(spec.params[2].id, "long");
    assert_eq!(spec.params[2].kind, ParamKind::LongFlag);
    assert_eq!(spec.params[3].id, "opt");
    assert!(!spec.params[3].required);
    assert_eq!(spec.params[6].id, "value");
    assert_eq!(spec.params[6].kind, ParamKind::LongValueFlag);
    assert_eq!(spec.params[6].placeholder, Some("VALUE".to_owned()));
}

#[test]
fn match_scenario_tokens() {
    let spec = scenario_specification();
    let m = spec.match_invocation(&strings(&["widget", "-f", "--long"])).unwrap();
    assert_eq!(m.bindings[0], Some(vec!["widget".to_owned()]));
    assert_eq!(m.bindings[1], Some(vec![]));
    assert_eq!(m.bindings[2], Some(vec![]));
    assert_eq!(m.bindings[3], None);
    assert_eq!(m.bindings[4], None);
    assert_eq!(m.bindings[5], None);
    assert_eq!(m.bindings[6], None);
    assert!(m.rest.is_empty());
}

#[test]
fn export_scenario_match() {
    let spec = scenario_specification();
    let m = spec.match_invocation(&strings(&["widget", "-f", "--long"])).unwrap();
    assert_eq!(export_matched(&spec, &m), "name \"widget\" f \"\" long \"\"");
}

#[test]
fn unknown_flag_fails_matching() {
    let spec = scenario_specification();
    let err = spec.match_invocation(&strings(&["--unknown"])).unwrap_err();
    assert_eq!(err, MatchError::UnknownFlag("--unknown".to_owned()));
}

#[test]
fn missing_required_fails_matching() {
    let spec = scenario_specification();
    let err = spec.match_invocation(&strings(&["widget", "-f"])).unwrap_err();
    assert_eq!(err, MatchError::MissingRequired("long".to_owned()));
}

#[test]
fn duplicate_flag_fails_matching() {
    let spec = scenario_specification();
    let err = spec.match_invocation(&strings(&["widget", "-f", "-f", "--long"])).unwrap_err();
    assert_eq!(err, MatchError::DuplicateFlag("-f".to_owned()));
}

#[test]
fn value_flag_without_value_fails_matching() {
    let spec = scenario_specification();
    let err = spec
        .match_invocation(&strings(&["widget", "-f", "--long", "--value"]))
        .unwrap_err();
    assert_eq!(err, MatchError::MissingValue("value".to_owned()));
}

#[test]
fn value_flag_consumes_exactly_the_next_token() {
    let spec = scenario_specification();
    let m = spec
        .match_invocation(&strings(&["--value", "payload", "widget", "-f", "--long"]))
        .unwrap();
    assert_eq!(m.bindings[6], Some(vec!["payload".to_owned()]));
    assert_eq!(m.bindings[0], Some(vec!["widget".to_owned()]));
    assert_eq!(export_matched(&spec, &m), "name \"widget\" f \"\" long \"\" value \"payload\"");
}

#[test]
fn export_order_follows_declaration_not_token_order() {
    let spec = scenario_specification();
    let m1 = spec.match_invocation(&strings(&["widget", "-f", "--long"])).unwrap();
    let m2 = spec.match_invocation(&strings(&["--long", "-f", "widget"])).unwrap();
    assert_eq!(m1, m2);
    assert_eq!(export_matched(&spec, &m1), export_matched(&spec, &m2));
}

#[test]
fn compiling_twice_behaves_identically() {
    let ir = usage_parser("# Usage: {cmd} name [opt] [rest]...").unwrap();
    let s1 = compile(&ir);
    let s2 = compile(&ir);
    let tokens = strings(&["a", "b", "c"]);
    assert_eq!(s1.match_invocation(&tokens), s2.match_invocation(&tokens));
}

#[test]
fn catch_all_absorbs_flag_like_tokens() {
    let ir = usage_parser("# Usage: {cmd} name [rest]...").unwrap();
    let spec = compile(&ir);
    let m = spec
        .match_invocation(&strings(&["--weird", "widget", "-x", "free"]))
        .unwrap();
    assert_eq!(m.bindings[0], Some(vec!["widget".to_owned()]));
    assert_eq!(m.rest, strings(&["--weird", "-x", "free"]));
    assert_eq!(export_matched(&spec, &m), "name \"widget\" rest \"--weird -x free\"");
}

#[test]
fn catch_all_absent_from_export_when_it_absorbed_nothing() {
    let ir = usage_parser("# Usage: {cmd} name [rest]...").unwrap();
    let spec = compile(&ir);
    let m = spec.match_invocation(&strings(&["widget"])).unwrap();
    assert!(m.rest.is_empty());
    assert_eq!(export_matched(&spec, &m), "name \"widget\"");
}

#[test]
fn empty_specification_accepts_only_zero_tokens() {
    let spec = compile(&usage_parser("# Usage: {cmd}").unwrap());
    assert!(spec.match_invocation(&strings(&[])).is_ok());
    let err = spec.match_invocation(&strings(&["anything"])).unwrap_err();
    assert_eq!(err, MatchError::UnexpectedArgument("anything".to_owned()));
    let err = spec.match_invocation(&strings(&["--flag"])).unwrap_err();
    assert_eq!(err, MatchError::UnknownFlag("--flag".to_owned()));
}

#[test]
fn default_specification_accepts_anything() {
    let spec = default_specification();
    let m = spec.match_invocation(&strings(&["--anything", "-x", "free"])).unwrap();
    assert_eq!(m.rest, strings(&["--anything", "-x", "free"]));
    assert_eq!(export_matched(&spec, &m), "args \"--anything -x free\"");
}

#[test]
fn synopsis_reproduces_declaration_order() {
    let usage = Usage::from_command(
        "sub widget".to_owned(),
        None,
        None,
        scenario_specification(),
    );
    assert_eq!(
        usage.generate(),
        "Usage: sub widget name -f --long [opt] [-o] [--longopt] [--value=VALUE]"
    );
}

#[test]
fn synopsis_writes_rest_last() {
    let spec = compile(&usage_parser("# Usage: {cmd} name [opt] [rest]...").unwrap());
    let usage = Usage::from_command("sub widget".to_owned(), None, None, spec);
    assert_eq!(usage.generate(), "Usage: sub widget name [opt] [rest]...");
}

#[test]
fn help_combines_summary_synopsis_and_description() {
    let spec = compile(&usage_parser("# Usage: {cmd} name").unwrap());
    let usage = Usage::from_command(
        "sub widget".to_owned(),
        Some("Make a widget".to_owned()),
        Some("Longer text.".to_owned()),
        spec,
    );
    assert_eq!(usage.help(), "Make a widget\n\nUsage: sub widget name\n\nLonger text.");
    assert_eq!(usage.summary(), "Make a widget");
}

#[test]
fn parse_into_kv_exports_on_success() {
    let usage = Usage::from_command("sub widget".to_owned(), None, None, scenario_specification());
    let out = usage.parse_into_kv(&strings(&["widget", "-f", "--long"])).unwrap();
    assert_eq!(out, "name \"widget\" f \"\" long \"\"");
}

#[test]
fn parse_into_kv_refuses_failed_matches() {
    let usage = Usage::from_command("sub widget".to_owned(), None, None, scenario_specification());
    let err = usage.parse_into_kv(&strings(&["--unknown"])).unwrap_err();
    assert_eq!(err, MatchError::UnknownFlag("--unknown".to_owned()));
}

#[test]
fn extract_usage_compiles_the_annotation() {
    let docs = Docs {
        summary: Some("Make a widget".to_owned()),
        description: None,
        usage: Some("# Usage: {cmd} name [rest]...".to_owned()),
    };
    let usage = extract_usage(&docs, "sub widget").unwrap();
    assert_eq!(usage.generate(), "Usage: sub widget name [rest]...");
    assert_eq!(usage.summary(), "Make a widget");
    let spec = usage.command();
    assert_eq!(spec.params.len(), 1);
    assert_eq!(spec.rest, Some("rest".to_owned()));
}

#[test]
fn extract_usage_without_annotation_validates_nothing() {
    let docs = Docs { summary: None, description: None, usage: None };
    let usage = extract_usage(&docs, "sub widget").unwrap();
    let out = usage.parse_into_kv(&strings(&["--anything", "-x", "free"])).unwrap();
    assert_eq!(out, "args \"--anything -x free\"");
}

#[test]
fn extract_usage_rejects_malformed_annotation() {
    let docs = Docs {
        summary: None,
        description: None,
        usage: Some("# Usage: {cmd} name...".to_owned()),
    };
    assert!(extract_usage(&docs, "sub widget").is_err());
}

#[test]
fn config_holds_resolved_paths() {
    let config = Config::new(
        "sub".to_owned(),
        "/opt/sub".to_owned(),
        "/home/someone/.cache/sub/cache".to_owned(),
        Color::Auto,
    );
    assert_eq!(config.libexec_path(), "/opt/sub/libexec");
    assert_eq!(config.name, "sub");
    assert_eq!(config.cache_directory, "/home/someone/.cache/sub/cache");
}
