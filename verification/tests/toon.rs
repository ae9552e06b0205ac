use nectar::error::Error;
use nectar::policy::{Action, Policy, Rule};
use nectar::toon::{
    count_indent, escape_csv_value, parse, parse_action, parse_csv_row, parse_header, serialize,
};

fn rate(share: f64) -> u32 {
    (share * 1_000_000.0).round() as u32
}

#[test]
fn parse_action_keep() {
    assert_eq!(parse_action("keep").unwrap(), Action::Keep);
}

#[test]
fn parse_action_drop() {
    assert_eq!(parse_action("drop").unwrap(), Action::Drop);
}

#[test]
fn parse_action_sample() {
    assert_eq!(parse_action("sample(0.1)").unwrap(), Action::Sample(rate(0.1)));
    assert_eq!(parse_action("sample(0.0)").unwrap(), Action::Sample(rate(0.0)));
    assert_eq!(parse_action("sample(1.0)").unwrap(), Action::Sample(rate(1.0)));
}

#[test]
fn parse_action_sample_invalid_rate() {
    assert!(parse_action("sample(1.5)").is_err());
    assert!(parse_action("sample(-0.1)").is_err());
    assert!(parse_action("sample(abc)").is_err());
}

#[test]
fn parse_action_invalid() {
    assert!(parse_action("unknown").is_err());
    assert!(parse_action("").is_err());
}

#[test]
fn parse_simple_policy() {
    let input = r#"
nectar_policy{version,name,budget_per_second,rules}:
  1
  test-policy
  5000
  rules[2]{name,description,match,action,priority}:
    keep-errors,Keep all errors,http.status >= 500,keep,100
    sample-rest,Sample remaining,true,sample(0.01),0
"#;

    let policy = parse(input).unwrap();
    assert_eq!(policy.version, 1);
    assert_eq!(policy.name, "test-policy");
    assert_eq!(policy.budget_per_second, Some(5000));
    assert_eq!(policy.rules.len(), 2);

    // Rules are sorted by priority (high to low)
    assert_eq!(policy.rules[0].name, "keep-errors");
    assert_eq!(policy.rules[0].priority, 100);
    assert_eq!(policy.rules[0].action, Action::Keep);

    assert_eq!(policy.rules[1].name, "sample-rest");
    assert_eq!(policy.rules[1].priority, 0);
    assert_eq!(policy.rules[1].action, Action::Sample(rate(0.01)));
}

#[test]
fn parse_policy_with_complex_match_expr() {
    let input = r#"
nectar_policy{version,name,budget_per_second,rules}:
  1
  complex-policy
  10000
  rules[1]{name,description,match,action,priority}:
    keep-errors,"Keep HTTP 5xx errors","http.status >= 500 || error == true",keep,100
"#;

    let policy = parse(input).unwrap();
    assert_eq!(policy.rules[0].match_expr, "http.status >= 500 || error == true");
    assert_eq!(policy.rules[0].description, Some("Keep HTTP 5xx errors".to_string()));
}

#[test]
fn parse_policy_count_mismatch() {
    let input = r#"
nectar_policy{version,name,budget_per_second,rules}:
  1
  test-policy
  5000
  rules[3]{name,description,match,action,priority}:
    keep-errors,Keep errors,status >= 500,keep,100
    sample-rest,Sample remaining,true,sample(0.01),0
"#;

    let result = parse(input);
    assert!(matches!(result, Err(Error::CountMismatch { declared: 3, actual: 2 })));
}

#[test]
fn parse_policy_missing_name() {
    let input = r#"
nectar_policy{version,budget_per_second,rules}:
  1
  5000
  rules[0]{name,description,match,action,priority}:
"#;

    let result = parse(input);
    assert!(matches!(result, Err(Error::MissingField(_))));
}

#[test]
fn roundtrip_serialize_parse() {
    let mut policy = Policy::new("roundtrip-test");
    policy.version = 1;
    policy.budget_per_second = Some(8000);
    policy.add_rule(
        Rule::new("keep-errors", "status >= 500", Action::Keep, 100)
            .with_description("Retain all errors"),
    );
    policy.add_rule(
        Rule::new("sample-rest", "true", Action::Sample(rate(0.05)), 0)
            .with_description("Sample baseline"),
    );

    let serialized = serialize(&policy);
    let parsed = parse(&serialized).unwrap();

    assert_eq!(parsed.name, policy.name);
    assert_eq!(parsed.version, policy.version);
    assert_eq!(parsed.budget_per_second, policy.budget_per_second);
    assert_eq!(parsed.rules.len(), policy.rules.len());
}

#[test]
fn parse_csv_row_simple() {
    let values = parse_csv_row("a,b,c");
    assert_eq!(values, vec!["a", "b", "c"]);
}

#[test]
fn parse_csv_row_quoted() {
    let values = parse_csv_row(r#"a,"b,c",d"#);
    assert_eq!(values, vec!["a", "b,c", "d"]);
}

#[test]
fn parse_csv_row_escaped_quotes() {
    let values = parse_csv_row(r#"a,"b""c",d"#);
    assert_eq!(values, vec!["a", "b\"c", "d"]);
}

#[test]
fn rows_and_values_at_the_edges() {
    assert_eq!(parse_csv_row(""), vec![""]);
    assert_eq!(parse_csv_row(","), vec!["", ""]);
    assert_eq!(parse_csv_row(" a , b "), vec!["a", "b"]);
    assert_eq!(parse_csv_row("\" a \",b"), vec!["a", "b"]);
    assert_eq!(parse_csv_row("a\"b\"c"), vec!["abc"]);
    assert_eq!(parse_csv_row("\"open,still"), vec!["open,still"]);
    assert_eq!(parse_csv_row("\"\"\"\""), vec!["\""]);
    assert_eq!(escape_csv_value("plain"), "plain");
    assert_eq!(escape_csv_value("a,b"), "\"a,b\"");
    assert_eq!(escape_csv_value("say \"hi\""), "\"say \"\"hi\"\"\"");
    assert_eq!(escape_csv_value("two\nlines"), "\"two\nlines\"");
    assert_eq!(escape_csv_value(""), "");
    for value in ["plain", "a,b", "say \"hi\"", "x\"\"y", ",", "\""] {
        assert_eq!(parse_csv_row(&escape_csv_value(value)), vec![value], "{value:?}");
    }
    assert_eq!(count_indent(&"    four".chars().collect::<Vec<_>>()), 4);
    assert_eq!(count_indent(&"\t\u{a0}x".chars().collect::<Vec<_>>()), 3);
    assert_eq!(count_indent(&"   ".chars().collect::<Vec<_>>()), 3);
    assert_eq!(count_indent(&[]), 0);
}

#[test]
fn the_whole_policy_is_read_exactly() {
    let input = "\n\nnectar_policy{name, rules ,budget_per_second}:\n\n  my policy  \n  rules[3]{priority,action,match,name,description}:\n    5,sample(0.25),\"a == 1, b\",low,\n      200 , keep , status >= 500 , \"high, \"\"quoted\"\"\" , first \n    5,drop,true,also-low,second\n  +77\n";
    let policy = parse(input).unwrap();
    let expected = Policy {
        version: 1,
        name: "my policy".to_string(),
        budget_per_second: Some(77),
        rules: vec![
            Rule::new("high, \"quoted\"", "status >= 500", Action::Keep, 200)
                .with_description("first"),
            Rule::new("low", "a == 1, b", Action::Sample(250_000), 5),
            Rule::new("also-low", "true", Action::Drop, 5).with_description("second"),
        ],
    };
    assert_eq!(policy, expected);
}

#[test]
fn serialized_policy_in_full() {
    let mut policy = Policy::new("p, \"q\"");
    policy.version = 3;
    policy.add_rule(Rule::new("a", "x == 1", Action::Sample(1), 7));
    policy.add_rule(Rule::new("b,c", "true", Action::Sample(1_000_000), 0).with_description("d\"e"));
    policy.add_rule(Rule::new("k", "y", Action::Sample(120_500), 9));
    policy.add_rule(Rule::new("z", "w", Action::Sample(2_500_000), 8));
    let text = serialize(&policy);
    assert_eq!(
        text,
        "nectar_policy{version,name,budget_per_second,rules}:\n  3\n  p, \"q\"\n  0\n  rules[4]{name,description,match,action,priority}:\n    k,,y,sample(0.1205),9\n    z,,w,sample(2.5),8\n    a,,x == 1,sample(0.000001),7\n    \"b,c\",\"d\"\"e\",true,sample(1),0\n"
    );
    let mut plain = Policy::new("plain");
    plain.budget_per_second = Some(12);
    plain.add_rule(Rule::new("a", "x == 1", Action::Keep, 1).with_description("with, comma"));
    plain.add_rule(Rule::new("b", "true", Action::Sample(50_000), 0));
    let mut parsed = parse(&serialize(&plain)).unwrap();
    assert_eq!(parsed, plain);
    parsed.budget_per_second = None;
    // A policy without budget is written with budget 0.
    assert_eq!(parse(&serialize(&parsed)).unwrap().budget_per_second, Some(0));
}

fn syntax_error(line: usize, reason: &str) -> Error {
    Error::Parse { line, reason: reason.to_string() }
}

#[test]
fn errors_name_the_line_and_the_reason() {
    assert_eq!(parse("").unwrap_err(), syntax_error(1, "empty input"));
    assert_eq!(parse(" \n\t\n").unwrap_err(), syntax_error(1, "empty input"));
    assert_eq!(parse("\n\nnectar_policy{name}").unwrap_err(), syntax_error(3, "header must end with ':'"));
    assert_eq!(parse("nectar_policy:").unwrap_err(), syntax_error(1, "header must have fields in braces"));
    assert_eq!(parse("x[3{a}:").unwrap_err(), syntax_error(1, "unclosed '[' in header"));
    assert_eq!(parse("x[three]{a}:").unwrap_err(), syntax_error(1, "invalid count in header: three"));
    assert_eq!(parse("x[1]a}:").unwrap_err(), syntax_error(1, "header must have fields in braces"));
    assert_eq!(parse("x{a:").unwrap_err(), syntax_error(1, "header must have fields in braces"));
    assert_eq!(
        parse("policy{name}:\n  n").unwrap_err(),
        syntax_error(1, "expected 'nectar_policy' header, found 'policy'")
    );
    assert_eq!(
        parse("nectar_policy{name,colour}:\n  n\n  red").unwrap_err(),
        syntax_error(1, "unknown field: colour")
    );
    assert_eq!(
        parse("nectar_policy{version,name}:\n  1").unwrap_err(),
        syntax_error(2, "unexpected end of input")
    );
    assert_eq!(
        parse("nectar_policy{name}:\n\n n").unwrap_err(),
        syntax_error(3, "expected indent of at least 2 spaces, found 1")
    );
    assert_eq!(
        parse("nectar_policy{version}:\n  one").unwrap_err(),
        syntax_error(2, "invalid version number: one")
    );
    assert_eq!(
        parse("nectar_policy{version}:\n  4294967296").unwrap_err(),
        syntax_error(2, "invalid version number: 4294967296")
    );
    assert_eq!(
        parse("nectar_policy{budget_per_second}:\n  -1").unwrap_err(),
        syntax_error(2, "invalid budget number: -1")
    );
    assert_eq!(parse("nectar_policy{version}:\n  7").unwrap_err(), Error::MissingField("name".to_string()));
    assert_eq!(
        parse("nectar_policy{rules}:").unwrap_err(),
        syntax_error(1, "expected rules section")
    );
    assert_eq!(
        parse("nectar_policy{rules}:\n rules[0]{name}:").unwrap_err(),
        syntax_error(2, "expected indent of at least 2 spaces for rules header")
    );
    assert_eq!(
        parse("nectar_policy{rules}:\n  rows[0]{name}:").unwrap_err(),
        syntax_error(2, "expected 'rules' header, found 'rows'")
    );
    assert_eq!(
        parse("nectar_policy{rules}:\n  rules{name}:").unwrap_err(),
        syntax_error(2, "rules header must specify count [N]")
    );
    let rules = |header: &str, row: &str| {
        parse(&format!("nectar_policy{{name,rules}}:\n  n\n  {header}\n    {row}")).unwrap_err()
    };
    assert_eq!(
        rules("rules[1]{name,match}:", "a,b,c"),
        syntax_error(4, "expected 2 fields, found 3 in row: a,b,c")
    );
    assert_eq!(
        rules("rules[1]{name,colour}:", "a,b"),
        syntax_error(4, "unknown rule field: colour")
    );
    assert_eq!(
        rules("rules[1]{name,priority}:", "a,256"),
        syntax_error(4, "invalid priority: 256")
    );
    assert_eq!(
        rules("rules[1]{name,action}:", "a,sample(2)"),
        syntax_error(
            4,
            "invalid action: invalid action 'sample(2)': sample rate must be between 0.0 and 1.0"
        )
    );
    assert_eq!(rules("rules[1]{match}:", "a"), syntax_error(4, "rule missing 'name' field"));
    assert_eq!(rules("rules[1]{name}:", "a"), syntax_error(4, "rule missing 'match' field"));
    assert_eq!(rules("rules[1]{name,match}:", "a,b"), syntax_error(4, "rule missing 'action' field"));
    assert_eq!(
        rules("rules[1]{name,match,action}:", "a,b,keep"),
        syntax_error(4, "rule missing 'priority' field")
    );
    assert_eq!(
        syntax_error(4, "why").message(),
        "parse error at line 4: why"
    );
    assert_eq!(
        Error::CountMismatch { declared: 3, actual: 2 }.message(),
        "count mismatch: declared 3, found 2"
    );
    assert_eq!(Error::MissingField("name".to_string()).message(), "missing required field: name");
    assert_eq!(Error::InvalidTrace("x".to_string()).message(), "invalid trace format: x");
}

#[test]
fn actions_are_read_exactly() {
    assert_eq!(parse_action("  keep "), Ok(Action::Keep));
    assert_eq!(parse_action("sample(1)"), Ok(Action::Sample(1_000_000)));
    assert_eq!(parse_action("sample(.5)"), Ok(Action::Sample(500_000)));
    assert_eq!(parse_action("sample(0.1234567)"), Ok(Action::Sample(123_456)));
    assert_eq!(parse_action("sample(-0.0)"), Ok(Action::Sample(0)));
    let invalid = |action: &str, reason: &str| {
        Err(Error::InvalidAction { action: action.to_string(), reason: reason.to_string() })
    };
    assert_eq!(parse_action("Keep"), invalid("Keep", "expected 'keep', 'drop', or 'sample(rate)'"));
    assert_eq!(parse_action("sample(x)"), invalid("sample(x)", "invalid sample rate: x"));
    assert_eq!(parse_action("sample()"), invalid("sample()", "invalid sample rate: "));
    assert_eq!(parse_action("sample( 0.5)"), invalid("sample( 0.5)", "invalid sample rate:  0.5"));
    assert_eq!(
        parse_action("sample(1.000001)"),
        invalid("sample(1.000001)", "sample rate must be between 0.0 and 1.0")
    );
    assert_eq!(
        parse_action("sample(99999999999999999999999999999999999999999)"),
        invalid(
            "sample(99999999999999999999999999999999999999999)",
            "sample rate must be between 0.0 and 1.0"
        )
    );
    assert_eq!(parse_action("sample("), invalid("sample(", "expected 'keep', 'drop', or 'sample(rate)'"));
    assert_eq!(
        Error::InvalidAction { action: "a".to_string(), reason: "r".to_string() }.message(),
        "invalid action 'a': r"
    );
}

#[test]
fn headers_are_read_exactly() {
    let header = |text: &str| parse_header(&text.chars().collect::<Vec<_>>(), 9).unwrap();
    assert!(parse_header(&"rules[ +2 ]{a}:".chars().collect::<Vec<_>>(), 1).is_err());
    let counted = header("  rules[+2]{a, b ,,c}:  ");
    assert_eq!(counted.name, "rules");
    assert_eq!(counted.count, Some(2));
    assert_eq!(counted.fields, vec!["a", "b", "", "c"]);
    let bare = header("{}:");
    assert_eq!((bare.name.as_str(), bare.count), ("", None));
    assert_eq!(bare.fields, vec![""]);
}

#[test]
fn the_parser_walks_its_lines() {
    let mut parser = nectar::toon::ToonParser::new("nectar_policy{version,name}:\n  1,demo\n");
    let first = parser.current_line().expect("a first line");
    assert_eq!(first.number, 1);
    assert_eq!(first.text.iter().collect::<String>(), "nectar_policy{version,name}:");
    parser.advance();
    let second = parser.current_line().expect("a second line");
    assert_eq!(second.number, 2);
    parser.advance();
    assert!(parser.current_line().is_none());
    parser.advance();
    assert!(parser.current_line().is_none());
}
