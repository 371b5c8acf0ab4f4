use gitql::diagnostic::DiagnosticLevel;
use gitql::render::render_tokens;
use gitql::text::SourceText;
use gitql::tokenizer::consume_backticks_identifier;
use gitql::tokenizer::consume_binary_number;
use gitql::tokenizer::consume_global_variable_name;
use gitql::tokenizer::consume_hex_number;
use gitql::tokenizer::consume_identifier;
use gitql::tokenizer::consume_number;
use gitql::tokenizer::consume_octal_number;
use gitql::tokenizer::consume_operator;
use gitql::tokenizer::consume_string_in_double_quotes;
use gitql::tokenizer::consume_string_in_single_quotes;
use gitql::tokenizer::ignore_c_style_comment;
use gitql::tokenizer::ignore_single_line_comment;
use gitql::tokenizer::resolve_symbol_kind;
use gitql::tokenizer::scan_step;
use gitql::tokenizer::tokenize;
use gitql::tokenizer::Token;
use gitql::tokenizer::TokenKind;

fn kinds(tokens: &[Token]) -> Vec<TokenKind> {
    tokens.iter().map(|t| t.kind).collect()
}

fn literals(tokens: &[Token]) -> Vec<String> {
    tokens.iter().map(|t| t.literal.clone()).collect()
}

fn spans(tokens: &[Token]) -> Vec<(usize, usize)> {
    tokens.iter().map(|t| (t.location.start, t.location.end)).collect()
}

fn tokens_of(script: &str) -> Vec<Token> {
    tokenize(script.to_string()).unwrap()
}

#[test]
fn select_with_limit() {
    let tokens = tokens_of("SELECT name FROM refs LIMIT 2");
    assert_eq!(
        kinds(&tokens),
        vec![
            TokenKind::Select,
            TokenKind::Symbol,
            TokenKind::From,
            TokenKind::Symbol,
            TokenKind::Limit,
            TokenKind::Integer
        ]
    );
    assert_eq!(literals(&tokens), vec!["select", "name", "from", "refs", "limit", "2"]);
    assert_eq!(spans(&tokens), vec![(0, 6), (7, 11), (12, 16), (17, 21), (22, 27), (28, 29)]);
}

#[test]
fn comments_and_integer_bases() {
    let tokens = tokens_of("-- hint\nSELECT /*c*/ 0x10 + 0b10");
    assert_eq!(
        kinds(&tokens),
        vec![TokenKind::Select, TokenKind::Integer, TokenKind::Plus, TokenKind::Integer]
    );
    assert_eq!(literals(&tokens), vec!["select", "16", "+", "2"]);
}

#[test]
fn empty_query_has_no_tokens() {
    assert!(tokens_of("").is_empty());
    assert!(tokens_of(" \t\n ").is_empty());
}

#[test]
fn unexpected_character_is_located() {
    let error = tokenize("select $".to_string()).unwrap_err();
    assert_eq!(error.level, DiagnosticLevel::Error);
    assert_eq!(error.message, "Unexpected character");
    assert!(error.helps.is_empty());
    assert_eq!(error.location, Some((7, 7)));
}

#[test]
fn carriage_return_is_no_blank() {
    let error = tokenize("select\r\n1".to_string()).unwrap_err();
    assert_eq!(error.message, "Unexpected character");
    assert_eq!(error.location, Some((6, 6)));
}

#[test]
fn letter_beyond_ascii_is_no_identifier() {
    let error = tokenize("select é".to_string()).unwrap_err();
    assert_eq!(error.message, "Unexpected character");
    assert_eq!(error.location, Some((7, 7)));
}

#[test]
fn keywords_in_any_case() {
    let lower = tokens_of("select distinct name from commits where a like b order by x desc");
    let mixed = tokens_of("SeLeCt DISTINCT Name FROM Commits wHERE A LiKe B oRdEr BY X DeSc");
    assert_eq!(kinds(&lower), kinds(&mixed));
    assert_eq!(literals(&lower), literals(&mixed));
    assert_eq!(spans(&lower), spans(&mixed));
    assert_eq!(
        kinds(&lower),
        vec![
            TokenKind::Select,
            TokenKind::Distinct,
            TokenKind::Symbol,
            TokenKind::From,
            TokenKind::Symbol,
            TokenKind::Where,
            TokenKind::Symbol,
            TokenKind::Like,
            TokenKind::Symbol,
            TokenKind::Order,
            TokenKind::By,
            TokenKind::Symbol,
            TokenKind::Descending
        ]
    );
}

#[test]
fn case_of_quoted_text_is_kept() {
    let tokens = tokens_of("'Ada' \"Bo\" `Name`");
    assert_eq!(kinds(&tokens), vec![TokenKind::String, TokenKind::String, TokenKind::Symbol]);
    assert_eq!(literals(&tokens), vec!["Ada", "Bo", "Name"]);
    assert_eq!(spans(&tokens), vec![(0, 5), (6, 10), (11, 17)]);
}

#[test]
fn every_reserved_word_has_its_kind() {
    let words = [
        ("do", TokenKind::Do),
        ("set", TokenKind::SetKeyword),
        ("select", TokenKind::Select),
        ("distinct", TokenKind::Distinct),
        ("from", TokenKind::From),
        ("where", TokenKind::Where),
        ("limit", TokenKind::Limit),
        ("offset", TokenKind::Offset),
        ("order", TokenKind::Order),
        ("using", TokenKind::Using),
        ("case", TokenKind::Case),
        ("when", TokenKind::When),
        ("then", TokenKind::Then),
        ("else", TokenKind::Else),
        ("end", TokenKind::End),
        ("between", TokenKind::Between),
        ("in", TokenKind::In),
        ("is", TokenKind::Is),
        ("on", TokenKind::On),
        ("not", TokenKind::Not),
        ("like", TokenKind::Like),
        ("glob", TokenKind::Glob),
        ("describe", TokenKind::Describe),
        ("show", TokenKind::Show),
        ("regexp", TokenKind::RegExp),
        ("benchmark", TokenKind::Benchmark),
        ("into", TokenKind::Into),
        ("outfile", TokenKind::Outfile),
        ("dumpfile", TokenKind::Dumpfile),
        ("lines", TokenKind::Lines),
        ("fields", TokenKind::Fields),
        ("enclosed", TokenKind::Enclosed),
        ("terminated", TokenKind::Terminated),
        ("join", TokenKind::Join),
        ("left", TokenKind::Left),
        ("right", TokenKind::Right),
        ("cross", TokenKind::Cross),
        ("inner", TokenKind::Inner),
        ("outer", TokenKind::Outer),
        ("group", TokenKind::Group),
        ("by", TokenKind::By),
        ("having", TokenKind::Having),
        ("with", TokenKind::With),
        ("rollup", TokenKind::Rollup),
        ("div", TokenKind::Slash),
        ("mod", TokenKind::Percentage),
        ("or", TokenKind::OrOr),
        ("and", TokenKind::AndAnd),
        ("xor", TokenKind::LogicalXor),
        ("true", TokenKind::True),
        ("false", TokenKind::False),
        ("null", TokenKind::Null),
        ("infinity", TokenKind::Infinity),
        ("nan", TokenKind::NaN),
        ("as", TokenKind::As),
        ("asc", TokenKind::Ascending),
        ("desc", TokenKind::Descending),
        ("array", TokenKind::Array),
    ];
    for (word, kind) in words {
        assert_eq!(resolve_symbol_kind(word.to_string()), kind, "{}", word);
        assert_eq!(resolve_symbol_kind(word.to_uppercase()), kind, "{}", word);
        let tokens = tokens_of(word);
        assert_eq!(tokens.len(), 1);
        assert_eq!(tokens[0].kind, kind);
        assert_eq!(tokens[0].literal, word);
    }
    assert_eq!(resolve_symbol_kind("selects".to_string()), TokenKind::Symbol);
    assert_eq!(resolve_symbol_kind("".to_string()), TokenKind::Symbol);
}

#[test]
fn identifier_takes_letters_digits_and_underscores() {
    let tokens = tokens_of("commit_Id2 x");
    assert_eq!(literals(&tokens), vec!["commit_id2", "x"]);
    assert_eq!(kinds(&tokens), vec![TokenKind::Symbol, TokenKind::Symbol]);
    assert_eq!(spans(&tokens), vec![(0, 10), (11, 12)]);
}

#[test]
fn underscore_does_not_start_an_identifier() {
    let error = tokenize("_x".to_string()).unwrap_err();
    assert_eq!(error.message, "Unexpected character");
    assert_eq!(error.location, Some((0, 0)));
}

#[test]
fn operators_take_the_longest_match() {
    let tokens = tokens_of("< <= <=> <> << > >= >> | || & && . .. : := ! != = @>");
    assert_eq!(
        kinds(&tokens),
        vec![
            TokenKind::Less,
            TokenKind::LessEqual,
            TokenKind::NullSafeEqual,
            TokenKind::BangEqual,
            TokenKind::BitwiseLeftShift,
            TokenKind::Greater,
            TokenKind::GreaterEqual,
            TokenKind::BitwiseRightShift,
            TokenKind::BitwiseOr,
            TokenKind::OrOr,
            TokenKind::BitwiseAnd,
            TokenKind::AndAnd,
            TokenKind::Dot,
            TokenKind::DotDot,
            TokenKind::Colon,
            TokenKind::ColonEqual,
            TokenKind::Bang,
            TokenKind::BangEqual,
            TokenKind::Equal,
            TokenKind::AtRightArrow
        ]
    );
    assert_eq!(
        literals(&tokens),
        vec![
            "<", "<=", "<=>", "<>", "<<", ">", ">=", ">>", "|", "||", "&", "&&", ".", "..", ":",
            ":=", "!", "!=", "=", "@"
        ]
    );
}

#[test]
fn operators_without_blanks_between() {
    let tokens = tokens_of("a<=>b<=c<>d");
    assert_eq!(
        kinds(&tokens),
        vec![
            TokenKind::Symbol,
            TokenKind::NullSafeEqual,
            TokenKind::Symbol,
            TokenKind::LessEqual,
            TokenKind::Symbol,
            TokenKind::BangEqual,
            TokenKind::Symbol
        ]
    );
}

#[test]
fn single_character_marks() {
    let tokens = tokens_of("+ - * / % ^ ~ # , ( ) [ ] ;");
    assert_eq!(
        kinds(&tokens),
        vec![
            TokenKind::Plus,
            TokenKind::Minus,
            TokenKind::Star,
            TokenKind::Slash,
            TokenKind::Percentage,
            TokenKind::Caret,
            TokenKind::BitwiseNot,
            TokenKind::BitwiseXor,
            TokenKind::Comma,
            TokenKind::LeftParen,
            TokenKind::RightParen,
            TokenKind::LeftBracket,
            TokenKind::RightBracket,
            TokenKind::Semicolon
        ]
    );
}

#[test]
fn an_operator_is_located_by_its_first_character() {
    let tokens = tokens_of("a <= b @> c");
    assert_eq!(spans(&tokens), vec![(0, 1), (2, 2), (5, 6), (7, 9), (10, 11)]);
}

#[test]
fn decimal_numbers() {
    let tokens = tokens_of("1_000 3.14 7. 1_0.2_5");
    assert_eq!(
        kinds(&tokens),
        vec![TokenKind::Integer, TokenKind::Float, TokenKind::Float, TokenKind::Float]
    );
    assert_eq!(literals(&tokens), vec!["1000", "3.14", "7.", "10.25"]);
    assert_eq!(spans(&tokens), vec![(0, 5), (6, 10), (11, 13), (14, 21)]);
}

#[test]
fn number_followed_by_letters() {
    let tokens = tokens_of("12abc");
    assert_eq!(kinds(&tokens), vec![TokenKind::Integer, TokenKind::Symbol]);
    assert_eq!(literals(&tokens), vec!["12", "abc"]);
}

#[test]
fn numbers_of_other_bases() {
    let tokens = tokens_of("0xff 0xFF 0b1010 0o17 0x1_0 0x7fffffffffffffff");
    assert_eq!(
        literals(&tokens),
        vec!["255", "255", "10", "15", "16", "9223372036854775807"]
    );
    assert!(tokens.iter().all(|t| t.kind == TokenKind::Integer));
    assert_eq!(tokens[0].location.start, 2);
    assert_eq!(tokens[0].location.end, 4);
}

#[test]
fn upper_case_prefix_is_no_prefix() {
    let tokens = tokens_of("0X10");
    assert_eq!(kinds(&tokens), vec![TokenKind::Integer, TokenKind::Symbol]);
    assert_eq!(literals(&tokens), vec!["0", "x10"]);
}

#[test]
fn missing_digits_after_prefix() {
    let hex = tokenize("0x".to_string()).unwrap_err();
    assert_eq!(hex.message, "Missing digits after the integer base prefix");
    assert_eq!(
        hex.helps,
        vec![
            "Expect at least one hex digits after the prefix 0x",
            "Hex digit mean 0 to 9 and a to f"
        ]
    );
    assert_eq!(hex.location, Some((2, 2)));
    let binary = tokenize("0b2".to_string()).unwrap_err();
    assert_eq!(binary.message, "Missing digits after the integer base prefix");
    assert_eq!(
        binary.helps,
        vec![
            "Expect at least one binary digits after the prefix 0b",
            "Binary digit mean 0 or 1"
        ]
    );
    let octal = tokenize("0o8".to_string()).unwrap_err();
    assert_eq!(octal.message, "Missing digits after the integer base prefix");
    assert_eq!(
        octal.helps,
        vec![
            "Expect at least one octal digits after the prefix 0o",
            "Octal digit mean 0 to 8 number"
        ]
    );
}

#[test]
fn invalid_numbers_of_other_bases() {
    let hex = tokenize("0x8000000000000000".to_string()).unwrap_err();
    assert_eq!(hex.message, "Invalid hex decimal number");
    assert!(hex.helps.is_empty());
    assert_eq!(hex.location, Some((2, 18)));
    let binary = tokenize("0b_".to_string()).unwrap_err();
    assert_eq!(binary.message, "Invalid binary number");
    assert_eq!(binary.location, Some((2, 3)));
    let octal = tokenize("0o7777777777777777777777".to_string()).unwrap_err();
    assert_eq!(octal.message, "Invalid octal number");
}

#[test]
fn strings_hold_what_stands_between_the_quotes() {
    let tokens = tokens_of("'it is' \"say 'x'\" ''");
    assert_eq!(literals(&tokens), vec!["it is", "say 'x'", ""]);
    assert!(tokens.iter().all(|t| t.kind == TokenKind::String));
}

#[test]
fn spans_are_in_bytes() {
    let tokens = tokens_of("'é' x");
    assert_eq!(literals(&tokens), vec!["é", "x"]);
    assert_eq!(spans(&tokens), vec![(0, 4), (5, 6)]);
}

#[test]
fn unterminated_strings() {
    let single = tokenize("x 'abc".to_string()).unwrap_err();
    assert_eq!(single.message, "Unterminated single quote string");
    assert_eq!(single.helps, vec!["Add ' at the end of the String literal"]);
    assert_eq!(single.location, Some((2, 6)));
    let double = tokenize("\"abc".to_string()).unwrap_err();
    assert_eq!(double.message, "Unterminated double quote string");
    assert_eq!(double.helps, vec!["Add \" at the end of the String literal"]);
    assert_eq!(double.location, Some((0, 4)));
}

#[test]
fn backticks_make_symbols() {
    let tokens = tokens_of("`select` `a b`");
    assert_eq!(kinds(&tokens), vec![TokenKind::Symbol, TokenKind::Symbol]);
    assert_eq!(literals(&tokens), vec!["select", "a b"]);
    let error = tokenize("`abc".to_string()).unwrap_err();
    assert_eq!(error.message, "Unterminated backticks");
    assert_eq!(error.helps, vec!["Add ` at the end of the identifier"]);
    assert_eq!(error.location, Some((0, 4)));
}

#[test]
fn global_variables() {
    let tokens = tokens_of("@Name @a_1");
    assert_eq!(kinds(&tokens), vec![TokenKind::GlobalVariable, TokenKind::GlobalVariable]);
    assert_eq!(literals(&tokens), vec!["@name", "@a_1"]);
    assert_eq!(spans(&tokens), vec![(0, 5), (6, 10)]);
}

#[test]
fn global_variable_needs_a_letter() {
    let digit = tokenize("@1".to_string()).unwrap_err();
    assert_eq!(digit.message, "Global variable name must start with alphabetic character");
    assert_eq!(digit.helps, vec!["Add at least one alphabetic character after @"]);
    assert_eq!(digit.location, Some((0, 1)));
    let alone = tokenize("x @".to_string()).unwrap_err();
    assert_eq!(alone.message, "Global variable name must start with alphabetic character");
    assert_eq!(alone.location, Some((2, 3)));
}

#[test]
fn comments_leave_no_token() {
    let tokens = tokens_of("1 -- one\n2 /* two\n * 2 */ 3 -- end");
    assert_eq!(literals(&tokens), vec!["1", "2", "3"]);
    let tokens = tokens_of("a /* x / y */ b");
    assert_eq!(literals(&tokens), vec!["a", "b"]);
    let tokens = tokens_of("a - b / c");
    assert_eq!(
        kinds(&tokens),
        vec![
            TokenKind::Symbol,
            TokenKind::Minus,
            TokenKind::Symbol,
            TokenKind::Slash,
            TokenKind::Symbol
        ]
    );
}

#[test]
fn unterminated_comment() {
    let error = tokenize("1 /* abc".to_string()).unwrap_err();
    assert_eq!(error.message, "C Style comment must end with */");
    assert_eq!(error.helps, vec!["Add */ at the end of C Style comments"]);
    assert_eq!(error.location, Some((7, 7)));
    let short = tokenize("/*".to_string()).unwrap_err();
    assert_eq!(short.location, Some((2, 2)));
    let almost = tokenize("/*/".to_string()).unwrap_err();
    assert_eq!(almost.message, "C Style comment must end with */");
}

#[test]
fn first_error_stops_the_tokenizer() {
    let error = tokenize("'a' $ 'b".to_string()).unwrap_err();
    assert_eq!(error.message, "Unexpected character");
    assert_eq!(error.location, Some((4, 4)));
}

#[test]
fn rendered_tokens_read_back() {
    let scripts = [
        "SELECT name, COUNT(commit_id) FROM commits WHERE name = 'Ada' GROUP BY name",
        "select `select`, \"it's\" , 'say \"x\"' from t where a <=> b and c @> d",
        "SET @Limit := 0x10 + 0b10 * 1_000.5 -- tail",
        "a<=b<>c>>d..e /* c */ div mod xor",
        "",
    ];
    for script in scripts {
        let tokens = tokens_of(script);
        let text = render_tokens(&tokens);
        let again = tokens_of(&text);
        assert_eq!(kinds(&tokens), kinds(&again), "{}", script);
        assert_eq!(literals(&tokens), literals(&again), "{}", script);
    }
}

#[test]
fn rendering_writes_one_space_between_tokens() {
    let tokens = tokens_of("select   name,'x'  from `t` where a@>b");
    assert_eq!(render_tokens(&tokens), "select `name` , 'x' from `t` where `a` @> `b`");
    let quoted = tokens_of("\"it's\"");
    assert_eq!(render_tokens(&quoted), "\"it's\"");
}

#[test]
fn consume_identifier_reads_one_word() {
    let source = SourceText::new("Select x");
    let mut pos = 0;
    let mut start = 0;
    let token = consume_identifier(&source, &mut pos, &mut start);
    assert_eq!(token.kind, TokenKind::Select);
    assert_eq!(token.literal, "select");
    assert_eq!((token.location.start, token.location.end), (0, 6));
    assert_eq!(pos, 6);
    assert_eq!(start, 0);
}

#[test]
fn consume_global_variable_name_reads_the_name() {
    let source = SourceText::new("@Ab+");
    let mut pos = 0;
    let mut start = 0;
    let token = consume_global_variable_name(&source, &mut pos, &mut start).unwrap();
    assert_eq!(token.kind, TokenKind::GlobalVariable);
    assert_eq!(token.literal, "@ab");
    assert_eq!(pos, 3);
    let bad = SourceText::new("@+");
    let mut pos = 0;
    let mut start = 0;
    assert!(consume_global_variable_name(&bad, &mut pos, &mut start).is_err());
}

#[test]
fn consume_number_reads_integer_and_float() {
    let source = SourceText::new("12_3.4_5x");
    let mut pos = 0;
    let mut start = 0;
    let token = consume_number(&source, &mut pos, &mut start).unwrap();
    assert_eq!(token.kind, TokenKind::Float);
    assert_eq!(token.literal, "123.45");
    assert_eq!(pos, 8);
    let source = SourceText::new("42 ");
    let mut pos = 0;
    let mut start = 0;
    let token = consume_number(&source, &mut pos, &mut start).unwrap();
    assert_eq!(token.kind, TokenKind::Integer);
    assert_eq!(token.literal, "42");
    assert_eq!(pos, 2);
}

#[test]
fn consume_numbers_of_other_bases() {
    let source = SourceText::new("0x1F 0b101 0o70");
    let mut pos = 2;
    let mut start = 2;
    let hex = consume_hex_number(&source, &mut pos, &mut start).unwrap();
    assert_eq!(hex.literal, "31");
    assert_eq!(pos, 4);
    let mut pos = 7;
    let mut start = 7;
    let binary = consume_binary_number(&source, &mut pos, &mut start).unwrap();
    assert_eq!(binary.literal, "5");
    assert_eq!(pos, 10);
    let mut pos = 13;
    let mut start = 13;
    let octal = consume_octal_number(&source, &mut pos, &mut start).unwrap();
    assert_eq!(octal.literal, "56");
    assert_eq!(pos, 15);
    assert_eq!(octal.kind, TokenKind::Integer);
}

#[test]
fn consume_quoted_texts() {
    let source = SourceText::new("'a b' \"c\" `d`");
    let mut pos = 0;
    let mut start = 0;
    let single = consume_string_in_single_quotes(&source, &mut pos, &mut start).unwrap();
    assert_eq!((single.kind, single.literal.as_str(), pos), (TokenKind::String, "a b", 5));
    let mut pos = 6;
    let mut start = 6;
    let double = consume_string_in_double_quotes(&source, &mut pos, &mut start).unwrap();
    assert_eq!((double.kind, double.literal.as_str(), pos), (TokenKind::String, "c", 9));
    let mut pos = 10;
    let mut start = 10;
    let symbol = consume_backticks_identifier(&source, &mut pos, &mut start).unwrap();
    assert_eq!((symbol.kind, symbol.literal.as_str(), pos), (TokenKind::Symbol, "d", 13));
    assert_eq!((symbol.location.start, symbol.location.end), (10, 13));
}

#[test]
fn ignore_comments_moves_behind_them() {
    let source = SourceText::new("-- a\nb /* c */ d --");
    let mut pos = 0;
    ignore_single_line_comment(&source, &mut pos);
    assert_eq!(pos, 5);
    let mut pos = 7;
    assert!(ignore_c_style_comment(&source, &mut pos).is_ok());
    assert_eq!(pos, 14);
    let mut pos = 17;
    ignore_single_line_comment(&source, &mut pos);
    assert_eq!(pos, 19);
}

#[test]
fn consume_operator_reads_the_longest() {
    let source = SourceText::new("<=>x");
    let mut pos = 0;
    let token = consume_operator(&source, &mut pos).unwrap();
    assert_eq!(token.kind, TokenKind::NullSafeEqual);
    assert_eq!(pos, 3);
    assert!(consume_operator(&source, &mut pos).is_none());
    assert_eq!(pos, 3);
}

#[test]
fn the_position_after_a_number_that_is_none() {
    let source = SourceText::new("0xg 0x__ 0b1012 0o");
    let mut pos = 2;
    let mut start = 2;
    assert!(consume_hex_number(&source, &mut pos, &mut start).is_err());
    assert_eq!((pos, start), (2, 2));
    let mut pos = 6;
    let mut start = 6;
    assert!(consume_hex_number(&source, &mut pos, &mut start).is_err());
    assert_eq!((pos, start), (8, 6));
    let mut pos = 11;
    let mut start = 11;
    assert!(consume_binary_number(&source, &mut pos, &mut start).is_ok());
    assert_eq!(pos, 14);
    let mut pos = 18;
    let mut start = 18;
    assert!(consume_octal_number(&source, &mut pos, &mut start).is_err());
    assert_eq!(pos, 18);
    let long = SourceText::new("0xffffffffffffffffff+1");
    let mut pos = 2;
    let mut start = 2;
    assert!(consume_hex_number(&long, &mut pos, &mut start).is_err());
    assert_eq!(pos, 20);
    let binary = SourceText::new("0b_ 0o9");
    let mut pos = 2;
    let mut start = 2;
    assert!(consume_binary_number(&binary, &mut pos, &mut start).is_err());
    assert_eq!(pos, 3);
    let mut pos = 6;
    let mut start = 6;
    assert!(consume_octal_number(&binary, &mut pos, &mut start).is_err());
    assert_eq!(pos, 6);
}

#[test]
fn the_position_after_other_failures() {
    let source = SourceText::new("'abc @1 /* x");
    let mut pos = 0;
    let mut start = 0;
    assert!(consume_string_in_single_quotes(&source, &mut pos, &mut start).is_err());
    assert_eq!(pos, 12);
    let mut pos = 5;
    let mut start = 5;
    assert!(consume_global_variable_name(&source, &mut pos, &mut start).is_err());
    assert_eq!(pos, 6);
    let mut pos = 8;
    assert!(ignore_c_style_comment(&source, &mut pos).is_err());
    assert_eq!(pos, 11);
    let open = SourceText::new("\"abc `de");
    let mut pos = 0;
    let mut start = 0;
    assert!(consume_string_in_double_quotes(&open, &mut pos, &mut start).is_err());
    assert_eq!(pos, 8);
    let mut pos = 5;
    let mut start = 5;
    assert!(consume_backticks_identifier(&open, &mut pos, &mut start).is_err());
    assert_eq!(pos, 8);
}

#[test]
fn a_step_that_fails_leaves_the_position() {
    let source = SourceText::new("a 'b $ 0x @ /*");
    for at in [2usize, 5, 7, 10, 12] {
        let mut pos = at;
        assert!(scan_step(&source, &mut pos).is_err(), "{}", at);
        assert_eq!(pos, at);
    }
    let mut pos = 0;
    let token = scan_step(&source, &mut pos).unwrap().unwrap();
    assert_eq!(token.literal, "a");
    assert_eq!(pos, 1);
    assert!(scan_step(&source, &mut pos).unwrap().is_none());
    assert_eq!(pos, 2);
}
