use lox::scanner::parse_tokens;
use lox::scanner::LexError;
use lox::scanner::LexErrorKind;
use lox::tokens::Literal;
use lox::tokens::Token;
use lox::tokens::TokenType;

fn scan(source: &str) -> (Vec<Token>, Vec<LexError>, i32) {
    parse_tokens(&source.to_string())
}

fn kinds(tokens: &[Token]) -> Vec<TokenType> {
    tokens.iter().map(|token| token.token_type).collect()
}

fn listing(source: &str) -> Vec<String> {
    scan(source).0.iter().map(|token| token.to_string()).collect()
}

#[test]
fn empty_text_gives_the_sentinel_alone() {
    let (tokens, errors, code) = scan("");
    assert_eq!(tokens.len(), 1);
    assert_eq!(tokens[0].token_type, TokenType::Eof);
    assert_eq!(tokens[0].name, "");
    assert!(matches!(tokens[0].value, Literal::Nil));
    assert_eq!(tokens[0].line_number, 0);
    assert!(errors.is_empty());
    assert_eq!(code, 0);
    assert_eq!(tokens[0].to_string(), "EOF  null");
}

#[test]
fn every_text_ends_in_the_sentinel() {
    for source in ["", " ", "\n\n", "var a = 1;", "\"open", "@#", "// only a comment", "1.", "a\r\nb"] {
        let (tokens, _, _) = scan(source);
        assert_eq!(tokens.last().unwrap().token_type, TokenType::Eof, "{:?}", source);
        for token in &tokens[..tokens.len() - 1] {
            assert_ne!(token.token_type, TokenType::Eof);
            assert!(token.line_number >= 1);
        }
    }
}

#[test]
fn punctuation_maps_one_to_one() {
    let (tokens, errors, code) = scan("(){},.-+;*/");
    assert_eq!(
        kinds(&tokens),
        vec![
            TokenType::LeftParen,
            TokenType::RightParen,
            TokenType::LeftBrace,
            TokenType::RightBrace,
            TokenType::Comma,
            TokenType::Dot,
            TokenType::Minus,
            TokenType::Plus,
            TokenType::Semicolon,
            TokenType::Star,
            TokenType::Slash,
            TokenType::Eof,
        ]
    );
    assert!(errors.is_empty());
    assert_eq!(code, 0);
    assert_eq!(tokens[0].to_string(), "LEFT_PAREN ( null");
    assert_eq!(tokens[10].to_string(), "SLASH / null");
}

#[test]
fn operators_pair_with_a_following_equal_sign() {
    let (tokens, _, _) = scan("! != = == > >= < <= !== =!");
    assert_eq!(
        kinds(&tokens),
        vec![
            TokenType::Bang,
            TokenType::BangEqual,
            TokenType::Equal,
            TokenType::EqualEqual,
            TokenType::Greater,
            TokenType::GreaterEqual,
            TokenType::Less,
            TokenType::LessEqual,
            TokenType::BangEqual,
            TokenType::Equal,
            TokenType::Equal,
            TokenType::Bang,
            TokenType::Eof,
        ]
    );
    assert_eq!(tokens[1].name, "!=");
    assert_eq!(tokens[5].name, ">=");
}

#[test]
fn comments_run_to_the_end_of_the_line() {
    let (tokens, errors, _) = scan("a // b c @ \"\nd / e");
    assert_eq!(
        kinds(&tokens),
        vec![
            TokenType::Identifier,
            TokenType::Identifier,
            TokenType::Slash,
            TokenType::Identifier,
            TokenType::Eof
        ]
    );
    assert!(errors.is_empty());
    assert_eq!(tokens[1].name, "d");
    assert_eq!(tokens[1].line_number, 2);
}

#[test]
fn lines_are_counted_from_one() {
    let (tokens, _, _) = scan("a\nb\r\n\n  c\td");
    let lines: Vec<usize> = tokens.iter().map(|token| token.line_number).collect();
    assert_eq!(lines, vec![1, 2, 4, 4, 0]);
}

#[test]
fn strings_keep_their_quotes_in_the_lexeme_only() {
    let (tokens, errors, code) = scan("\"hello world\" \"\"");
    assert_eq!(kinds(&tokens), vec![TokenType::String, TokenType::String, TokenType::Eof]);
    assert_eq!(tokens[0].name, "\"hello world\"");
    assert!(matches!(&tokens[0].value, Literal::String(text) if text == "hello world"));
    assert_eq!(tokens[1].name, "\"\"");
    assert!(matches!(&tokens[1].value, Literal::String(text) if text.is_empty()));
    assert!(errors.is_empty());
    assert_eq!(code, 0);
    assert_eq!(tokens[0].to_string(), "STRING \"hello world\" hello world");
}

#[test]
fn unterminated_string_ends_the_scan_of_its_line() {
    let (tokens, errors, code) = scan("a \"open b c\nd");
    assert_eq!(kinds(&tokens), vec![TokenType::Identifier, TokenType::Identifier, TokenType::Eof]);
    assert_eq!(tokens[1].name, "d");
    assert_eq!(tokens[1].line_number, 2);
    assert_eq!(errors.len(), 1);
    assert_eq!(errors[0].line_number, 1);
    assert!(matches!(errors[0].kind, LexErrorKind::UnterminatedString));
    assert_eq!(errors[0].message(), "[line 1] Error: Unterminated string.");
    assert_eq!(code, 65);
}

#[test]
fn unexpected_characters_are_reported_and_passed() {
    let (tokens, errors, code) = scan("a @ b\n#\u{e9}");
    assert_eq!(kinds(&tokens), vec![TokenType::Identifier, TokenType::Identifier, TokenType::Eof]);
    assert_eq!(errors.len(), 3);
    assert_eq!(errors[0].message(), "[line 1] Error: Unexpected character: @");
    assert_eq!(errors[1].message(), "[line 2] Error: Unexpected character: #");
    assert_eq!(errors[2].message(), "[line 2] Error: Unexpected character: \u{e9}");
    assert_eq!(code, 65);
}

#[test]
fn numbers_keep_their_lexeme_and_carry_a_canonical_numeral() {
    assert_eq!(listing("42"), vec!["NUMBER 42 42.0", "EOF  null"]);
    assert_eq!(listing("1234.1234"), vec!["NUMBER 1234.1234 1234.1234", "EOF  null"]);
    assert_eq!(listing("007.50"), vec!["NUMBER 007.50 7.5", "EOF  null"]);
    assert_eq!(listing("0"), vec!["NUMBER 0 0.0", "EOF  null"]);
    assert_eq!(listing("000"), vec!["NUMBER 000 0.0", "EOF  null"]);
    assert_eq!(listing("3.000"), vec!["NUMBER 3.000 3.0", "EOF  null"]);
    assert_eq!(listing("0.001"), vec!["NUMBER 0.001 0.001", "EOF  null"]);
    assert_eq!(listing("100"), vec!["NUMBER 100 100.0", "EOF  null"]);
}

#[test]
fn a_trailing_dot_is_a_token_of_its_own() {
    assert_eq!(listing("1."), vec!["NUMBER 1 1.0", "DOT . null", "EOF  null"]);
    assert_eq!(listing("1.a"), vec!["NUMBER 1 1.0", "DOT . null", "IDENTIFIER a null", "EOF  null"]);
    assert_eq!(
        listing("1.5.3"),
        vec!["NUMBER 1.5 1.5", "DOT . null", "NUMBER 3 3.0", "EOF  null"]
    );
    assert_eq!(listing(".5"), vec!["DOT . null", "NUMBER 5 5.0", "EOF  null"]);
    assert_eq!(
        listing("1..2"),
        vec!["NUMBER 1 1.0", "DOT . null", "DOT . null", "NUMBER 2 2.0", "EOF  null"]
    );
}

#[test]
fn words_are_keywords_or_identifiers() {
    let (tokens, errors, _) = scan(
        "and class else false for fun if nil or print return super this true var while _x x1 And classy f_1",
    );
    assert_eq!(
        kinds(&tokens),
        vec![
            TokenType::And,
            TokenType::Class,
            TokenType::Else,
            TokenType::False,
            TokenType::For,
            TokenType::Fun,
            TokenType::If,
            TokenType::Nil,
            TokenType::Or,
            TokenType::Print,
            TokenType::Return,
            TokenType::Super,
            TokenType::This,
            TokenType::True,
            TokenType::Var,
            TokenType::While,
            TokenType::Identifier,
            TokenType::Identifier,
            TokenType::Identifier,
            TokenType::Identifier,
            TokenType::Identifier,
            TokenType::Eof,
        ]
    );
    assert!(errors.is_empty());
    assert_eq!(tokens[16].name, "_x");
    assert_eq!(tokens[19].name, "classy");
}

#[test]
fn a_digit_does_not_start_an_identifier() {
    assert_eq!(listing("1abc"), vec!["NUMBER 1 1.0", "IDENTIFIER abc null", "EOF  null"]);
}

#[test]
fn keyword_lookup() {
    assert_eq!(TokenType::get_keyword_or_identifier("and"), TokenType::And);
    assert_eq!(TokenType::get_keyword_or_identifier("while"), TokenType::While);
    assert_eq!(TokenType::get_keyword_or_identifier("print"), TokenType::Print);
    assert_eq!(TokenType::get_keyword_or_identifier("whil"), TokenType::Identifier);
    assert_eq!(TokenType::get_keyword_or_identifier("While"), TokenType::Identifier);
    assert_eq!(TokenType::get_keyword_or_identifier(""), TokenType::Identifier);
    assert_eq!(TokenType::get_keyword_or_identifier("andy"), TokenType::Identifier);
}

#[test]
fn kinds_have_upper_case_names() {
    assert_eq!(TokenType::LeftParen.display_name(), "LEFT_PAREN");
    assert_eq!(TokenType::RightBrace.display_name(), "RIGHT_BRACE");
    assert_eq!(TokenType::BangEqual.display_name(), "BANG_EQUAL");
    assert_eq!(TokenType::GreaterEqual.display_name(), "GREATER_EQUAL");
    assert_eq!(TokenType::String.display_name(), "STRING");
    assert_eq!(TokenType::Identifier.display_name(), "IDENTIFIER");
    assert_eq!(TokenType::Print.display_name(), "PRINT");
    assert_eq!(TokenType::Eof.display_name(), "EOF");
}

#[test]
fn token_new_keeps_its_arguments() {
    let token = Token::new(TokenType::Number, "12".to_string(), Literal::Number("12.0".to_string()), 7);
    assert_eq!(token.token_type, TokenType::Number);
    assert_eq!(token.name, "12");
    assert!(matches!(&token.value, Literal::Number(numeral) if numeral == "12.0"));
    assert_eq!(token.line_number, 7);
    let copy = token.clone();
    assert_eq!(copy.name, "12");
    assert_eq!(copy.line_number, 7);
    assert_eq!(copy.to_string(), "NUMBER 12 12.0");
}

#[test]
fn scanning_goes_on_behind_errors() {
    let (tokens, errors, code) = scan("var a = $1;\nvar b = \"x;\nvar c = 2;");
    assert_eq!(code, 65);
    assert_eq!(errors.len(), 2);
    assert_eq!(errors[0].message(), "[line 1] Error: Unexpected character: $");
    assert_eq!(errors[1].message(), "[line 2] Error: Unterminated string.");
    let names: Vec<&str> = tokens.iter().map(|token| token.name.as_str()).collect();
    assert_eq!(names, vec!["var", "a", "=", "1", ";", "var", "b", "=", "var", "c", "=", "2", ";", ""]);
}

/// The lexemes of the tokens of `source`, each followed by a space.
fn lexemes(tokens: &[Token]) -> String {
    let mut text = String::new();
    for token in tokens {
        if token.token_type != TokenType::Eof {
            text.push_str(&token.name);
            text.push(' ');
        }
    }
    text
}

#[test]
fn rescanning_the_lexemes_gives_the_same_tokens() {
    for source in [
        "var a = 1.50; // note\nprint a >= 007 or !b;",
        "fun f(x,y){return x/y-\"a b\"+.5;}",
        "1.a 2..3 !==<= @ \"open",
        "",
        "for(;;){}if(a<b)c=d;",
    ] {
        let (tokens, _, _) = scan(source);
        let (again, errors, code) = scan(&lexemes(&tokens));
        assert!(errors.is_empty());
        assert_eq!(code, 0);
        assert_eq!(again.len(), tokens.len());
        for (first, second) in tokens.iter().zip(again.iter()) {
            assert_eq!(first.token_type, second.token_type);
            assert_eq!(first.name, second.name);
            assert_eq!(first.to_string(), second.to_string());
        }
    }
}
