use liszp::error::ErrorKind;
use liszp::lexer::Expr;
use liszp::read::{parse, read, tokenise, Item, Reader};
use liszp::value::Value;

fn texts(source: &str) -> Vec<String> {
    read(source, "<test>").unwrap().iter().map(|v| v.to_text()).collect()
}

fn reader_error(source: &str) -> liszp::error::Error {
    match read(source, "file.lzp") {
        Err(e) => e,
        Ok(_) => panic!("expected an error for {:?}", source),
    }
}

#[test]
fn one_value_for_each_top_level_form() {
    assert_eq!(texts("(def x 7) (+ x 3)"), vec!["(def x 7)", "(+ x 3)"]);
    assert_eq!(texts(""), Vec::<String>::new());
    assert_eq!(texts("   \n\t "), Vec::<String>::new());
    assert_eq!(texts("a b c"), vec!["a", "b", "c"]);
}

#[test]
fn reserved_names_are_literals() {
    let values = read("true false nil null truth", "<test>").unwrap();
    assert!(matches!(&*values[0], Value::Bool(true)));
    assert!(matches!(&*values[1], Value::Bool(false)));
    assert!(matches!(&*values[2], Value::Nil));
    assert!(matches!(&*values[3], Value::Nil));
    assert!(matches!(&*values[4], Value::Name(n) if n == "truth"));
}

#[test]
fn numeric_literals() {
    let values = read("42 0x1F 0b1010 1_000 007 0XfF 0B11", "<test>").unwrap();
    let shown: Vec<String> = values.iter().map(|v| v.to_text()).collect();
    assert_eq!(shown, vec!["42", "31", "10", "1000", "7", "255", "3"]);
    for v in values.iter() {
        assert!(matches!(&**v, Value::Integer(_)));
    }
}

#[test]
fn a_literal_with_a_point_is_a_float() {
    let values = read("1.5 0.25 3. 1_0.5", "<test>").unwrap();
    for (v, numeral) in values.iter().zip(["1.5", "0.25", "3.", "1_0.5"]) {
        assert!(matches!(&**v, Value::Float(n) if n == numeral));
    }
}

#[test]
fn a_numeric_literal_that_is_no_number_is_an_error() {
    for source in ["0b_", "0x_", "(f 0x__1)"] {
        assert_eq!(reader_error(source).get_kind(), ErrorKind::Reader);
    }
    let error = reader_error("\n  0x_");
    assert!(error.get_message().contains("file.lzp:2:3"), "{}", error.get_message());
}

#[test]
fn a_prefix_without_digits_is_a_number_and_a_name() {
    assert_eq!(texts("0b2"), vec!["0", "b2"]);
    assert_eq!(texts("0xg"), vec!["0", "xg"]);
    assert_eq!(texts("12ab"), vec!["12", "ab"]);
}

#[test]
fn names_begin_with_a_letter_or_a_symbol() {
    assert_eq!(
        texts("foo _bar -baz + * / = < > <= : .x @ % ? ! a1 a&b x->y"),
        vec![
            "foo", "_bar", "-baz", "+", "*", "/", "=", "<", ">", "<=", ":", ".x", "@", "%", "?",
            "!", "a1", "a&b", "x->y"
        ]
    );
    let values = read("-5", "<test>").unwrap();
    assert!(matches!(&*values[0], Value::Name(n) if n == "-5"));
}

#[test]
fn strings_keep_their_quotes() {
    let values = read("\"hello world\" \"\" \"(not a list)\"", "<test>").unwrap();
    assert!(matches!(&*values[0], Value::String(s) if s == "\"hello world\""));
    assert!(matches!(&*values[1], Value::String(s) if s == "\"\""));
    assert!(matches!(&*values[2], Value::String(s) if s == "\"(not a list)\""));
}

#[test]
fn character_literals_are_strings() {
    let values = read("'c' '(' ' '", "<test>").unwrap();
    assert_eq!(values.len(), 3);
    assert!(matches!(&*values[0], Value::String(s) if s == "'c'"));
    assert!(matches!(&*values[1], Value::String(s) if s == "'('"));
    assert!(matches!(&*values[2], Value::String(s) if s == "' '"));
}

#[test]
fn a_string_does_not_run_over_the_line() {
    assert_eq!(texts("\"abc\ndef"), vec!["abc", "def"]);
}

#[test]
fn marks_wrap_the_next_form() {
    assert_eq!(texts("'a"), vec!["(quote a)"]);
    assert_eq!(texts("`a"), vec!["(quasiquote a)"]);
    assert_eq!(texts(",a"), vec!["(unquote a)"]);
    assert_eq!(texts("'(a b)"), vec!["(quote (a b))"]);
    assert_eq!(texts("''a"), vec!["(quote (quote a))"]);
    assert_eq!(texts("`(a ,b)"), vec!["(quasiquote (a (unquote b)))"]);
    assert_eq!(texts("' a"), vec!["(quote a)"]);
}

#[test]
fn a_mark_before_a_closing_bracket_or_the_end_is_dropped() {
    assert_eq!(texts("(a ')"), vec!["(a)"]);
    assert_eq!(texts("a '"), vec!["a"]);
}

#[test]
fn brackets_of_three_styles() {
    assert_eq!(texts("(a [b {c}])"), vec!["(a (b (c)))"]);
    assert_eq!(texts("()"), vec!["nil"]);
    assert_eq!(texts("[]"), vec!["nil"]);
    assert_eq!(texts("(())"), vec!["(nil)"]);
}

#[test]
fn bracket_errors() {
    for source in ["(", "(a (b)", "[a", "{", "(a]", "[a)", "{a]", "(a))", ")", "a ]"] {
        let error = reader_error(source);
        assert_eq!(error.get_kind(), ErrorKind::Reader, "{:?}", source);
    }
}

#[test]
fn bracket_errors_say_where() {
    let error = reader_error("(a\n  (b c]");
    assert!(error.get_message().starts_with("reader error in file.lzp:2:8"), "{}", error.get_message());
    let error = reader_error("(a b");
    assert!(error.get_message().starts_with("reader error in file.lzp:1:5"), "{}", error.get_message());
}

#[test]
fn comments_run_to_the_end_of_the_line() {
    assert_eq!(texts("a # b c\nd"), vec!["a", "d"]);
    assert_eq!(texts("# only a comment"), Vec::<String>::new());
    assert_eq!(texts("(a # (\n b)"), vec!["(a b)"]);
    assert_eq!(texts("\"a # b\""), vec!["\"a # b\""]);
}

#[test]
fn characters_of_no_token_only_separate() {
    assert_eq!(texts("a$b ~ c^d"), vec!["a", "b", "c", "d"]);
    assert_eq!(texts("a\"b"), vec!["a", "b"]);
}

#[test]
fn text_that_is_read_is_printed_as_it_was_written() {
    for source in [
        "(def x 7)",
        "(lambda (n) (if (== n 0) 1 (* n (fact (- n 1)))))",
        "(f \"a b\" 'c' 12 x-y)",
        "(a (b (c (d))))",
    ] {
        assert_eq!(texts(source), vec![source]);
    }
    assert_eq!(texts("( a   b\n\tc ) # comment"), vec!["(a b c)"]);
}

#[test]
fn token_trees_keep_positions_and_brackets() {
    let trees = tokenise("(a [b]\n  12 \"s\")").unwrap();
    assert_eq!(trees.len(), 1);
    assert_eq!(trees[0].position(), (1, 1));
    assert!(trees[0].has_delim("(".to_string()));
    assert!(!trees[0].atomic());
    let items = trees[0].inner_values();
    assert_eq!(items.len(), 4);
    assert!(items[0].equals("a".to_string()));
    assert!(items[0].has_type("Name".to_string()));
    assert_eq!(items[0].position(), (1, 2));
    assert!(items[1].has_delim("[".to_string()));
    assert!(items[1].has_type("List".to_string()));
    assert_eq!(items[1].position(), (1, 4));
    assert_eq!(items[1].inner_values()[0].position(), (1, 5));
    assert!(items[2].has_type("NumberLiteral".to_string()));
    assert!(items[2].equals("12".to_string()));
    assert_eq!(items[2].position(), (2, 3));
    assert!(items[3].has_type("StringLiteral".to_string()));
    assert!(items[3].equals("\"s\"".to_string()));
    assert_eq!(items[3].position(), (2, 6));
}

#[test]
fn a_mark_is_a_list_opened_with_a_round_bracket() {
    let trees = tokenise("  'x").unwrap();
    assert!(trees[0].has_delim("(".to_string()));
    assert_eq!(trees[0].position(), (1, 3));
    let items = trees[0].inner_values();
    assert!(items[0].equals("quote".to_string()));
    assert_eq!(items[0].position(), (1, 3));
    assert!(items[1].equals("x".to_string()));
    assert_eq!(items[1].position(), (1, 4));
}

#[test]
fn the_reader_gives_forms_one_by_one() {
    let mut reader = Reader::new("a (b) ) c", "<test>").unwrap();
    assert!(matches!(reader.read().unwrap(), Item::Form(e) if e.equals("a".to_string())));
    assert!(matches!(reader.read().unwrap(), Item::Form(e) if e.has_delim("(".to_string())));
    assert!(matches!(reader.read().unwrap(), Item::Close(')')));
    assert!(matches!(reader.read().unwrap(), Item::Form(e) if e.equals("c".to_string())));
    assert!(matches!(reader.read().unwrap(), Item::End));
    assert!(matches!(reader.read().unwrap(), Item::End));
}

#[test]
fn read_list_stops_at_the_closing_bracket() {
    let mut reader = Reader::new("a b) c", "<test>").unwrap();
    let items = reader.read_list(Some('(')).unwrap();
    assert_eq!(items.len(), 2);
    assert!(matches!(reader.read().unwrap(), Item::Form(e) if e.equals("c".to_string())));
}

#[test]
fn closing_brackets_match_by_style() {
    assert!(Reader::match_closing_bracket('(', ')'));
    assert!(Reader::match_closing_bracket('[', ']'));
    assert!(Reader::match_closing_bracket('{', '}'));
    assert!(!Reader::match_closing_bracket('(', ']'));
    assert!(!Reader::match_closing_bracket('[', '}'));
    assert!(!Reader::match_closing_bracket('{', ')'));
}

#[test]
fn parse_gives_the_value_of_a_token_tree() {
    let tree = Expr::List {
        body: vec![
            Expr::Name { string: "f".to_string(), position: (1, 2) },
            Expr::NumberLiteral { string: "0x10".to_string(), position: (1, 4) },
            Expr::StringLiteral { string: "\"s\"".to_string(), position: (1, 9) },
            Expr::Name { string: "nil".to_string(), position: (1, 13) },
        ],
        delim: "(".to_string(),
        position: (1, 1),
    };
    assert_eq!(parse(&tree, "<test>").unwrap().to_text(), "(f 16 \"s\" nil)");
    let bad = Expr::NumberLiteral { string: "12x".to_string(), position: (3, 4) };
    let error = parse(&bad, "f.lzp").unwrap_err();
    assert_eq!(error.get_kind(), ErrorKind::Reader);
    assert!(error.get_message().contains("f.lzp:3:4"));
    assert!(error.get_message().contains("12x"));
}
