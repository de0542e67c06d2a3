use crush::commands::filter::parser::{Condition, Value};
use crush::commands::filter::token::{parse_tokens, token};
use crush::data::{Cell, CellType, ColumnType, Regex};
use crush::errors::ErrorKind;
use crush::glob::Glob;

fn schema() -> Vec<ColumnType> {
    vec![
        ColumnType::named("name", CellType::Text),
        ColumnType::named("size", CellType::Integer),
    ]
}

fn words(text: &[&str]) -> Vec<String> {
    text.iter().map(|w| w.to_string()).collect()
}

#[test]
fn token_reads_each_form() {
    assert_eq!(token("==").unwrap(), Cell::Op("==".to_string()));
    assert_eq!(token("<").unwrap(), Cell::Op("<".to_string()));
    assert_eq!(token("!~").unwrap(), Cell::Op("!~".to_string()));
    assert_eq!(token("\"hello world\"").unwrap(), Cell::text("hello world"));
    assert_eq!(token("\"\"").unwrap(), Cell::text(""));
    assert_eq!(token("\"*\"").unwrap(), Cell::text("*"));
    assert_eq!(token("\"12\"").unwrap(), Cell::text("12"));
    assert_eq!(token("r{^a.c$}").unwrap(), Cell::Regex(Regex::new("^a.c$").unwrap()));
    assert_eq!(token("r{}").unwrap(), Cell::Regex(Regex::new("").unwrap()));
    assert_eq!(token("*.txt").unwrap(), Cell::Glob(Glob::new("*.txt")));
    assert_eq!(token("a?c").unwrap(), Cell::Glob(Glob::new("a?c")));
    assert_eq!(token("42").unwrap(), Cell::Integer(42));
    assert_eq!(token("-7").unwrap(), Cell::Integer(-7));
    assert_eq!(token("size").unwrap(), Cell::Field("size".to_string()));
    assert_eq!(token("\"").unwrap(), Cell::Field("\"".to_string()));
    assert_eq!(token("12a").unwrap(), Cell::Field("12a".to_string()));
    assert_eq!(token("").unwrap(), Cell::Field("".to_string()));
    assert_eq!(token("r{").unwrap(), Cell::Field("r{".to_string()));
}

#[test]
fn token_with_a_bad_regular_expression_is_a_type_error() {
    let e = token("r{(}").unwrap_err();
    assert_eq!(e.kind, ErrorKind::Type);
    assert_eq!(e.message, "Invalid regular expression");
}

#[test]
fn parse_tokens_reads_a_condition_as_written() {
    let c = parse_tokens(&schema(), &words(&["size", ">=", "10"])).unwrap();
    assert!(matches!(
        c,
        Condition::GreaterThanOrEqual(Value::Field(1), Value::Cell(Cell::Integer(10)))
    ));
    let c = parse_tokens(&schema(), &words(&["name", "=~", "a*"])).unwrap();
    match c {
        Condition::Match(Value::Field(0), Value::Cell(Cell::Glob(g))) => {
            assert!(g.same(&Glob::new("a*")))
        }
        other => panic!("unexpected condition {:?}", other),
    }
    let c = parse_tokens(&schema(), &words(&["\"size\"", "!=", "name"])).unwrap();
    match c {
        Condition::NotEqual(Value::Cell(Cell::Text(t)), Value::Field(0)) => assert_eq!(t, "size"),
        other => panic!("unexpected condition {:?}", other),
    }
}

#[test]
fn parse_tokens_fails_before_any_row() {
    let e = parse_tokens(&schema(), &words(&["colour", "==", "1"])).unwrap_err();
    assert_eq!(e.kind, ErrorKind::Argument);
    assert_eq!(e.message, "Unknown field");
    let e = parse_tokens(&schema(), &words(&["size", "==", "r{[}"])).unwrap_err();
    assert_eq!(e.kind, ErrorKind::Type);
    let e = parse_tokens(&schema(), &words(&["r{[}", "nonsense"])).unwrap_err();
    assert_eq!(e.kind, ErrorKind::Type);
    let e = parse_tokens(&schema(), &words(&["size", "1", "2"])).unwrap_err();
    assert_eq!(e.message, "Expected comparison");
    let e = parse_tokens(&schema(), &words(&[])).unwrap_err();
    assert_eq!(e.message, "Expected one value");
}

#[test]
fn glob_with_many_stars_answers_on_a_long_text() {
    let text = "a".repeat(2000);
    assert!(!Glob::new("*a*a*a*a*a*a*a*a*a*a*a*a*b").matches(&text));
    assert!(Glob::new("*a*a*a*a*a*a*a*a*a*a*a*a*").matches(&text));
    assert!(Glob::new("a*a").matches(&text));
}
