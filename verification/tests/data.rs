use crush::data::integer::parse_integer;
use crush::data::text::{compare_text, path_text};
use crush::data::sign::Sign;
use crush::data::{Cell, CellType, ColumnType, Duration, Regex, Row};
use crush::errors::{argument_error, error, ErrorKind, JobError};
use crush::glob::{chars_of, Glob};
use std::cmp::Ordering;

#[test]
fn glob_star_matches_any_run() {
    assert!(Glob::new("a*c").matches("abc"));
    assert!(Glob::new("a*c").matches("ac"));
    assert!(Glob::new("a*c").matches("abbbbc"));
    assert!(!Glob::new("a*c").matches("abd"));
    assert!(!Glob::new("a*c").matches("bac"));
    assert!(Glob::new("*").matches(""));
    assert!(Glob::new("*").matches("anything at all"));
    assert!(Glob::new("*.txt").matches("notes.txt"));
    assert!(!Glob::new("*.txt").matches("notes.txt.bak"));
    assert!(Glob::new("a*b*c").matches("a12b34c"));
    assert!(Glob::new("**").matches("x"));
}

#[test]
fn glob_question_mark_matches_one_character() {
    assert!(Glob::new("a?c").matches("abc"));
    assert!(!Glob::new("a?c").matches("ac"));
    assert!(!Glob::new("a?c").matches("abbc"));
    assert!(Glob::new("?").matches("é"));
    assert!(!Glob::new("?").matches(""));
}

#[test]
fn glob_literal_matches_itself_only() {
    assert!(Glob::new("abc").matches("abc"));
    assert!(!Glob::new("abc").matches("abcd"));
    assert!(!Glob::new("abc").matches("ab"));
    assert!(Glob::new("").matches(""));
    assert!(!Glob::new("").matches("a"));
}

#[test]
fn glob_same_compares_patterns() {
    assert!(Glob::new("a*").same(&Glob::new("a*")));
    assert!(!Glob::new("a*").same(&Glob::new("a?")));
    assert!(!Glob::new("a*").same(&Glob::new("a")));
}

#[test]
fn chars_of_keeps_every_character() {
    assert_eq!(chars_of("héllo"), vec!['h', 'é', 'l', 'l', 'o']);
    assert_eq!(chars_of(""), Vec::<char>::new());
}

#[test]
fn regex_matches_anywhere_in_the_text() {
    let re = Regex::new("^a.c$").unwrap();
    assert!(re.is_match("abc"));
    assert!(!re.is_match("abcd"));
    let inner = Regex::new("b+").unwrap();
    assert!(inner.is_match("aabbcc"));
    assert!(!inner.is_match("aacc"));
    assert_eq!(inner.as_str(), "b+");
}

#[test]
fn regex_that_does_not_compile_is_a_type_error() {
    let e = Regex::new("(unclosed").unwrap_err();
    assert_eq!(e.kind, ErrorKind::Type);
    assert_eq!(e.message, "Invalid regular expression");
}

#[test]
fn parse_integer_reads_signed_decimals() {
    assert_eq!(parse_integer("0"), Some(0));
    assert_eq!(parse_integer("42"), Some(42));
    assert_eq!(parse_integer("-12"), Some(-12));
    assert_eq!(parse_integer("+7"), Some(7));
    assert_eq!(parse_integer("007"), Some(7));
    assert_eq!(parse_integer(""), None);
    assert_eq!(parse_integer("-"), None);
    assert_eq!(parse_integer("+"), None);
    assert_eq!(parse_integer("12a"), None);
    assert_eq!(parse_integer("1 2"), None);
    assert_eq!(parse_integer("--1"), None);
    assert_eq!(parse_integer("١٢"), None);
}

#[test]
fn parse_integer_knows_the_limits_of_i128() {
    assert_eq!(
        parse_integer("170141183460469231731687303715884105727"),
        Some(i128::MAX)
    );
    assert_eq!(
        parse_integer("-170141183460469231731687303715884105728"),
        Some(i128::MIN)
    );
    assert_eq!(parse_integer("170141183460469231731687303715884105728"), None);
    assert_eq!(parse_integer("-170141183460469231731687303715884105729"), None);
    assert_eq!(
        parse_integer("99999999999999999999999999999999999999999999"),
        None
    );
}

#[test]
fn parse_integer_agrees_with_std() {
    for s in ["5", "-5", "+5", "", "x", "340282366920938463463374607431768211456", "-0"] {
        assert_eq!(parse_integer(s), s.parse::<i128>().ok());
    }
}

#[test]
fn cell_type_parse_reads_each_type() {
    assert_eq!(CellType::Text.parse("hi").unwrap(), Cell::text("hi"));
    assert_eq!(CellType::Integer.parse("-3").unwrap(), Cell::Integer(-3));
    assert_eq!(
        CellType::File.parse("/tmp/x").unwrap(),
        Cell::File(b"/tmp/x".to_vec())
    );
    assert_eq!(
        CellType::Glob.parse("*.rs").unwrap(),
        Cell::Glob(Glob::new("*.rs"))
    );
    assert_eq!(
        CellType::Regex.parse("a+").unwrap(),
        Cell::Regex(Regex::new("a+").unwrap())
    );
    assert_eq!(
        CellType::Duration.parse("2").unwrap(),
        Cell::Duration(Duration { nanos: 2_000_000_000 })
    );
    assert_eq!(
        CellType::Field.parse("name").unwrap(),
        Cell::Field("name".to_string())
    );
    assert_eq!(CellType::Op.parse("==").unwrap(), Cell::Op("==".to_string()));
}

#[test]
fn cell_type_parse_fails_with_a_type_error() {
    let e = CellType::Integer.parse("abc").unwrap_err();
    assert_eq!(e.kind, ErrorKind::Type);
    assert_eq!(e.message, "Invalid integer");
    let e = CellType::Duration.parse("9223372036854775808").unwrap_err();
    assert_eq!(e.kind, ErrorKind::Type);
    assert_eq!(e.message, "Invalid duration");
    let e = CellType::Duration.parse("soon").unwrap_err();
    assert_eq!(e.message, "Invalid duration");
    let e = CellType::Regex.parse("[").unwrap_err();
    assert_eq!(e.kind, ErrorKind::Type);
    assert_eq!(e.message, "Invalid regular expression");
    let e = CellType::Command.parse("ls").unwrap_err();
    assert_eq!(e.kind, ErrorKind::Type);
    assert_eq!(e.message, "Failed to parse cell");
    let e = CellType::Output.parse("1").unwrap_err();
    assert_eq!(e.message, "Failed to parse cell");
}

#[test]
fn duration_constructors_count_nanoseconds() {
    assert_eq!(Duration::microseconds(3).nanos, 3_000);
    assert_eq!(Duration::microseconds(-1).nanos, -1_000);
    assert_eq!(Duration::seconds(2).nanos, 2_000_000_000);
    assert_eq!(
        Duration::seconds(i64::MAX).nanos,
        9_223_372_036_854_775_807_000_000_000
    );
    assert_eq!(Duration::nanoseconds(17).nanos, 17);
}

#[test]
fn cells_are_equal_by_variant_and_value() {
    assert_eq!(Cell::text("a"), Cell::text("a"));
    assert_ne!(Cell::text("a"), Cell::text("b"));
    assert_ne!(Cell::text("1"), Cell::Integer(1));
    assert_ne!(Cell::text("a"), Cell::Field("a".to_string()));
    assert_ne!(Cell::text("a"), Cell::File(b"a".to_vec()));
    assert_eq!(Cell::File(vec![1, 2]), Cell::File(vec![1, 2]));
    assert_ne!(Cell::File(vec![1, 2]), Cell::File(vec![1, 2, 3]));
    assert_ne!(Cell::Glob(Glob::new("a")), Cell::Regex(Regex::new("a").unwrap()));
    assert_eq!(Cell::Output(2), Cell::Output(2));
    assert_ne!(Cell::Output(2), Cell::Output(3));
    assert_eq!(
        Cell::Duration(Duration::seconds(1)),
        Cell::Duration(Duration::microseconds(1_000_000))
    );
}

#[test]
fn clone_gives_an_equal_cell() {
    let cells = vec![
        Cell::text("a"),
        Cell::Integer(-9),
        Cell::File(vec![0xff, 0x00]),
        Cell::Glob(Glob::new("a*")),
        Cell::Regex(Regex::new("a+").unwrap()),
        Cell::Duration(Duration::seconds(3)),
        Cell::Field("f".to_string()),
        Cell::Op("<".to_string()),
        Cell::Output(4),
    ];
    for c in cells.iter() {
        assert_eq!(&c.clone(), c);
    }
    let row = Row::new(cells);
    assert_eq!(row.clone(), row);
}

#[test]
fn cell_type_names_the_variant() {
    assert_eq!(Cell::text("a").cell_type(), CellType::Text);
    assert_eq!(Cell::Integer(1).cell_type(), CellType::Integer);
    assert_eq!(Cell::File(vec![]).cell_type(), CellType::File);
    assert_eq!(Cell::Glob(Glob::new("")).cell_type(), CellType::Glob);
    assert_eq!(Cell::Regex(Regex::new("").unwrap()).cell_type(), CellType::Regex);
    assert_eq!(Cell::Duration(Duration::seconds(0)).cell_type(), CellType::Duration);
    assert_eq!(Cell::Field(String::new()).cell_type(), CellType::Field);
    assert_eq!(Cell::Op(String::new()).cell_type(), CellType::Op);
    assert_eq!(Cell::Output(0).cell_type(), CellType::Output);
}

#[test]
fn partial_cmp_orders_integers_texts_and_durations() {
    assert_eq!(Cell::Integer(1).partial_cmp(&Cell::Integer(2)), Some(Ordering::Less));
    assert_eq!(Cell::Integer(2).partial_cmp(&Cell::Integer(2)), Some(Ordering::Equal));
    assert_eq!(Cell::Integer(3).partial_cmp(&Cell::Integer(2)), Some(Ordering::Greater));
    assert_eq!(Cell::text("a").partial_cmp(&Cell::text("b")), Some(Ordering::Less));
    assert_eq!(Cell::text("ab").partial_cmp(&Cell::text("a")), Some(Ordering::Greater));
    assert_eq!(Cell::text("").partial_cmp(&Cell::text("")), Some(Ordering::Equal));
    assert_eq!(
        Cell::Duration(Duration::seconds(1)).partial_cmp(&Cell::Duration(Duration::seconds(2))),
        Some(Ordering::Less)
    );
}

#[test]
fn partial_cmp_has_no_order_across_variants() {
    assert_eq!(Cell::Integer(1).partial_cmp(&Cell::text("1")), None);
    assert_eq!(Cell::text("1").partial_cmp(&Cell::Integer(1)), None);
    assert_eq!(
        Cell::Integer(1).partial_cmp(&Cell::Duration(Duration::seconds(1))),
        None
    );
    assert_eq!(Cell::File(vec![1]).partial_cmp(&Cell::File(vec![2])), None);
    assert_eq!(
        Cell::Glob(Glob::new("a")).partial_cmp(&Cell::Glob(Glob::new("b"))),
        None
    );
}

#[test]
fn compare_text_orders_as_std_does() {
    let words = ["", "a", "ab", "b", "B", "é", "z", "zz", "日本"];
    for a in words {
        for b in words {
            let expected = match a.cmp(b) {
                Ordering::Less => Sign::Before,
                Ordering::Equal => Sign::Same,
                Ordering::Greater => Sign::After,
            };
            assert_eq!(compare_text(a, b), expected);
        }
    }
}

#[test]
fn path_text_reads_valid_utf8_only() {
    assert_eq!(path_text(&b"/tmp/caf\xc3\xa9".to_vec()), Some("/tmp/café"));
    assert_eq!(path_text(&vec![]), Some(""));
    assert_eq!(path_text(&vec![0xff, 0xfe]), None);
    assert_eq!(path_text(&vec![0xc3]), None);
}

#[test]
fn row_conforms_to_its_schema_only() {
    let schema = vec![
        ColumnType::named("name", CellType::Text),
        ColumnType::named("size", CellType::Integer),
    ];
    assert!(Row::new(vec![Cell::text("a"), Cell::Integer(1)]).conforms(&schema));
    assert!(!Row::new(vec![Cell::Integer(1), Cell::text("a")]).conforms(&schema));
    assert!(!Row::new(vec![Cell::text("a")]).conforms(&schema));
    assert!(!Row::new(vec![Cell::text("a"), Cell::Integer(1), Cell::Integer(2)]).conforms(&schema));
    assert!(Row::new(vec![]).conforms(&vec![]));
}

#[test]
fn errors_carry_their_kind_and_message() {
    let e: JobError = error("plain");
    assert_eq!(e.kind, ErrorKind::Generic);
    assert_eq!(e.to_string(), "plain");
    let a = argument_error("bad");
    assert_eq!(a.kind, ErrorKind::Argument);
    assert_eq!(a.message, "bad");
    let c = a.clone();
    assert_eq!(c.kind, ErrorKind::Argument);
    assert_eq!(c.message, "bad");
    assert_eq!(crush::errors::type_error("t").kind, ErrorKind::Type);
    assert_eq!(crush::errors::comparison_error("t").kind, ErrorKind::Comparison);
    assert_eq!(crush::errors::match_error("t").kind, ErrorKind::Match);
    assert_eq!(crush::errors::execution_error("t").kind, ErrorKind::Execution);
}
