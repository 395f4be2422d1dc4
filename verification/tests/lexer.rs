use forlex::errors::Error;
use forlex::file::File;
use forlex::parser::{parse_line, parser, split_line, tokenize};
use forlex::tokens::Token;

fn s(x: &str) -> String {
    x.to_string()
}

#[test]
fn splitter_keeps_nonempty_lines_in_order() {
    let file = File::new(s("a\nb\n\nc"), s("m.f"));
    let lines = split_line(&file);
    assert_eq!(lines, vec![s("a"), s("b"), s("c")]);
}

#[test]
fn splitter_empty_input_yields_no_lines() {
    let file = File::new(s(""), s("m.f"));
    assert_eq!(split_line(&file).len(), 0);
}

#[test]
fn splitter_newlines_only_yield_no_lines() {
    let file = File::new(s("\n\n\n"), s("m.f"));
    assert_eq!(split_line(&file).len(), 0);
}

#[test]
fn splitter_keeps_whitespace_lines_unmodified() {
    let file = File::new(s("  x \n \n"), s("m.f"));
    let lines = split_line(&file);
    assert_eq!(lines, vec![s("  x "), s(" ")]);
}

#[test]
fn splitter_trailing_newline_adds_no_line() {
    let file = File::new(s("a\nb\n"), s("m.f"));
    assert_eq!(split_line(&file), vec![s("a"), s("b")]);
}

#[test]
fn classifier_is_deterministic() {
    assert_eq!(tokenize(s("foo")), tokenize(s("foo")));
    assert_eq!(tokenize(s("PRINT")), tokenize(s("PRINT")));
}

#[test]
fn classifier_keywords() {
    assert_eq!(tokenize(s("DO")), Token::Do);
    assert_eq!(tokenize(s("FOR")), Token::Do);
    assert_eq!(tokenize(s("ELSE")), Token::Else);
    assert_eq!(tokenize(s("END")), Token::End);
    assert_eq!(tokenize(s("IF")), Token::If);
    assert_eq!(tokenize(s("PRINT")), Token::Print);
    assert_eq!(tokenize(s("PROGRAM")), Token::Program);
    assert_eq!(tokenize(s("RETURN")), Token::Return);
    assert_eq!(tokenize(s("THEN")), Token::Then);
    assert_eq!(tokenize(s("WHILE")), Token::While);
}

#[test]
fn classifier_is_case_insensitive_but_keeps_payload_case() {
    assert_eq!(tokenize(s("program")), Token::Program);
    assert_eq!(tokenize(s("Do")), Token::Do);
    assert_eq!(tokenize(s("real")), Token::Type(s("real")));
    assert_eq!(tokenize(s("Integer")), Token::Type(s("Integer")));
    assert_eq!(tokenize(s("CHARACTER")), Token::Type(s("CHARACTER")));
    assert_eq!(tokenize(s("logical")), Token::Type(s("logical")));
}

#[test]
fn classifier_assign_and_operators() {
    assert_eq!(tokenize(s("::")), Token::Assign(s("::")));
    assert_eq!(tokenize(s("=")), Token::Assign(s("=")));
    assert_eq!(tokenize(s("+")), Token::Operator(s("+")));
    assert_eq!(tokenize(s("-")), Token::Operator(s("-")));
    assert_eq!(tokenize(s("*")), Token::Operator(s("*")));
    assert_eq!(tokenize(s("/")), Token::Operator(s("/")));
}

#[test]
fn classifier_unknown_word_degrades_to_other() {
    assert_eq!(tokenize(s("banana")), Token::Other(s("banana")));
    assert_eq!(tokenize(s("")), Token::Other(s("")));
}

#[test]
fn scan_program_declaration() {
    let tokens = parse_line(s("PROGRAM hello"), 1);
    assert_eq!(tokens, vec![Token::Program, Token::Identifier(s("hello"))]);
}

#[test]
fn scan_declaration_marker_makes_variable() {
    let tokens = parse_line(s("x :: y"), 1);
    assert_eq!(
        tokens,
        vec![
            Token::Other(s("x")),
            Token::Assign(s("::")),
            Token::Variable(s("y")),
        ]
    );
}

#[test]
fn scan_quoted_string_keeps_spaces_and_strips_quotes() {
    let tokens = parse_line(s("PRINT \"hi there\""), 1);
    assert_eq!(tokens, vec![Token::Print, Token::Str(s("hi there"))]);
}

#[test]
fn scan_comment_swallows_rest_and_partial_word() {
    let tokens = parse_line(s("a = b ! add later"), 1);
    assert_eq!(
        tokens,
        vec![
            Token::Other(s("a")),
            Token::Assign(s("=")),
            Token::Other(s("b")),
            Token::Comment(s("! add later")),
        ]
    );
}

#[test]
fn scan_plain_assign_does_not_make_variable() {
    let tokens = parse_line(s("x = y"), 1);
    assert_eq!(
        tokens,
        vec![Token::Other(s("x")), Token::Assign(s("=")), Token::Other(s("y"))]
    );
}

#[test]
fn scan_commas_are_word_boundaries() {
    let tokens = parse_line(s("a,b"), 1);
    assert_eq!(tokens, vec![Token::Other(s("a")), Token::Other(s("b"))]);
}

#[test]
fn scan_delimiters_only_yield_no_tokens() {
    assert_eq!(parse_line(s(", ,"), 1).len(), 0);
    assert_eq!(parse_line(s("   "), 1).len(), 0);
}

#[test]
fn scan_unterminated_quote_drops_buffer() {
    let tokens = parse_line(s("PRINT \"abc"), 1);
    assert_eq!(tokens, vec![Token::Print]);
}

#[test]
fn scan_quote_after_word_flushes_it_as_string() {
    let tokens = parse_line(s("ab\"cd\""), 1);
    assert_eq!(tokens, vec![Token::Str(s("ab")), Token::Str(s("cd"))]);
}

#[test]
fn scan_final_bang_is_a_word_not_a_comment() {
    let tokens = parse_line(s("ab!"), 1);
    assert_eq!(tokens, vec![Token::Other(s("ab!"))]);
}

#[test]
fn token_value_round_trips_payloads() {
    assert_eq!(Token::Assign(s("::")).get_value(), s("::"));
    assert_eq!(Token::Operator(s("+")).get_value(), s("+"));
    assert_eq!(Token::Type(s("Real")).get_value(), s("Real"));
    assert_eq!(Token::Str(s("hi there")).get_value(), s("hi there"));
    assert_eq!(Token::Comment(s("! note")).get_value(), s("! note"));
    assert_eq!(Token::Identifier(s("main")).get_value(), s("main"));
    assert_eq!(Token::Variable(s("x")).get_value(), s("x"));
    assert_eq!(Token::Other(s("word")).get_value(), s("word"));
}

#[test]
fn token_value_keyword_labels() {
    assert_eq!(Token::Program.get_value(), s("PROGRAM"));
    assert_eq!(Token::If.get_value(), s("IF"));
    assert_eq!(Token::Then.get_value(), s("THEN"));
    assert_eq!(Token::Else.get_value(), s("ELSE"));
    assert_eq!(Token::Do.get_value(), s("DO"));
    assert_eq!(Token::While.get_value(), s("WHILE"));
    assert_eq!(Token::Return.get_value(), s("RETURN"));
    assert_eq!(Token::End.get_value(), s("END"));
    assert_eq!(Token::Print.get_value(), s("PRINT"));
}

#[test]
fn token_equality_is_structural() {
    assert_eq!(Token::Assign(s("::")), Token::Assign(s("::")));
    assert_ne!(Token::Assign(s("::")), Token::Assign(s("=")));
    assert_ne!(Token::Other(s("x")), Token::Identifier(s("x")));
    assert_ne!(Token::Program, Token::Print);
}

#[test]
fn parser_builds_program_from_unit() {
    let file = File::new(s("PROGRAM hello\nx :: y\nPRINT \"hi\""), s("m.f"));
    let program = parser(file).unwrap();
    assert_eq!(program.get_name(), "hello");
    assert_eq!(program.get_filename(), "m.f");
    assert_eq!(program.get_line(), 0);
    assert!(!program.is_verbose());
    let lines = program.get_lines();
    assert_eq!(lines.len(), 3);
    assert_eq!(lines[0], vec![Token::Program, Token::Identifier(s("hello"))]);
    assert_eq!(lines[2], vec![Token::Print, Token::Str(s("hi"))]);
}

#[test]
fn parser_rejects_missing_name() {
    let file = File::new(s("PROGRAM"), s("m.f"));
    match parser(file) {
        Ok(_) => panic!("a unit without a program name must be rejected"),
        Err(e) => assert_eq!(e, Error::WrongFormat),
    }
}

#[test]
fn parser_rejects_empty_unit() {
    let file = File::new(s(""), s("m.f"));
    assert!(parser(file).is_err());
}

#[test]
fn parser_skips_blank_lines() {
    let file = File::new(s("\nPROGRAM p\n\nEND"), s("m.f"));
    let program = parser(file).unwrap();
    assert_eq!(program.get_name(), "p");
    assert_eq!(program.get_lines().len(), 2);
    assert_eq!(program.get_lines()[1], vec![Token::End]);
}
