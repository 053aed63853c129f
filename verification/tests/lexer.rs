use transpiler::token::{LexError, Lexer, Type};

fn lex(source: &str) -> Result<Vec<Type>, LexError> {
    Lexer::new(source.to_string()).lex()
}

fn ident(word: &str) -> Type {
    Type::Identifier(word.to_string())
}

#[test]
fn declaration_with_arrow() {
    assert_eq!(
        lex("int: x <- 12;"),
        Ok(vec![
            ident("int"),
            Type::Colon,
            ident("x"),
            Type::Equal,
            Type::Number(12),
            Type::SemiColon,
        ])
    );
}

#[test]
fn every_punctuation_character() {
    assert_eq!(
        lex("+-*/;:=()<>{},.\n"),
        Ok(vec![
            Type::Plus,
            Type::Minus,
            Type::Asterisk,
            Type::Slash,
            Type::SemiColon,
            Type::Colon,
            Type::Equal,
            Type::LParen,
            Type::RParen,
            Type::Less,
            Type::Greater,
            Type::LBraces,
            Type::RBraces,
            Type::Conma,
            Type::Period,
            Type::Enter,
        ])
    );
}

#[test]
fn arrow_takes_both_characters() {
    assert_eq!(lex("<-"), Ok(vec![Type::Equal]));
    assert_eq!(lex("a<-b"), Ok(vec![ident("a"), Type::Equal, ident("b")]));
}

#[test]
fn less_than_alone() {
    assert_eq!(lex("a<b"), Ok(vec![ident("a"), Type::Less, ident("b")]));
    assert_eq!(lex("a< -b"), Ok(vec![ident("a"), Type::Less, Type::Minus, ident("b")]));
}

#[test]
fn less_than_at_the_end() {
    assert_eq!(lex("<"), Ok(vec![Type::Less]));
}

#[test]
fn comparison_chain_tokens() {
    assert_eq!(
        lex("a>b<c"),
        Ok(vec![ident("a"), Type::Greater, ident("b"), Type::Less, ident("c")])
    );
}

#[test]
fn string_literal_is_taken_verbatim() {
    assert_eq!(
        lex("\"he said \\n <- 1\""),
        Ok(vec![Type::DoubleQuotation("he said \\n <- 1".to_string())])
    );
}

#[test]
fn string_literal_consumes_closing_quote() {
    assert_eq!(
        lex("\"a\"b"),
        Ok(vec![Type::DoubleQuotation("a".to_string()), ident("b")])
    );
}

#[test]
fn empty_string_literal() {
    assert_eq!(lex("\"\""), Ok(vec![Type::DoubleQuotation(String::new())]));
}

#[test]
fn unterminated_string_runs_to_the_end() {
    assert_eq!(lex("\"abc"), Ok(vec![Type::DoubleQuotation("abc".to_string())]));
    assert_eq!(lex("\""), Ok(vec![Type::DoubleQuotation(String::new())]));
}

#[test]
fn numbers() {
    assert_eq!(lex("0"), Ok(vec![Type::Number(0)]));
    assert_eq!(lex("007"), Ok(vec![Type::Number(7)]));
    assert_eq!(lex("12 34"), Ok(vec![Type::Number(12), Type::Number(34)]));
}

#[test]
fn fraction_is_captured_and_dropped() {
    assert_eq!(lex("12.5"), Ok(vec![Type::Number(12)]));
    assert_eq!(lex("3.14.15;"), Ok(vec![Type::Number(3), Type::SemiColon]));
    assert_eq!(lex("1.x"), Ok(vec![Type::Number(1), ident("x")]));
}

#[test]
fn period_before_a_digit_is_punctuation() {
    assert_eq!(lex("a.1"), Ok(vec![ident("a"), Type::Period, Type::Number(1)]));
}

#[test]
fn largest_number() {
    assert_eq!(lex("9223372036854775807"), Ok(vec![Type::Number(i64::MAX)]));
}

#[test]
fn number_too_large() {
    assert_eq!(lex("9223372036854775808"), Err(LexError::NumberTooLarge));
    assert_eq!(lex("x <- 99999999999999999999999;"), Err(LexError::NumberTooLarge));
    assert_eq!(lex("9223372036854775808.1"), Err(LexError::NumberTooLarge));
}

#[test]
fn identifiers() {
    assert_eq!(lex("abc"), Ok(vec![ident("abc")]));
    assert_eq!(lex("_a1_B2"), Ok(vec![ident("_a1_B2")]));
    assert_eq!(lex("a1 b2"), Ok(vec![ident("a1"), ident("b2")]));
    assert_eq!(lex("1a"), Ok(vec![Type::Number(1), ident("a")]));
}

#[test]
fn non_ascii_identifier_is_one_token() {
    assert_eq!(lex("変数"), Ok(vec![ident("変数")]));
    assert_eq!(lex("ひらがな"), Ok(vec![ident("ひらがな")]));
    assert_eq!(lex("カタカナ"), Ok(vec![ident("カタカナ")]));
    assert_eq!(lex("値_x2あ"), Ok(vec![ident("値_x2あ")]));
}

#[test]
fn non_ascii_identifier_ends_at_punctuation() {
    assert_eq!(
        lex("整数: 値 <- 1;"),
        Ok(vec![
            ident("整数"),
            Type::Colon,
            ident("値"),
            Type::Equal,
            Type::Number(1),
            Type::SemiColon,
        ])
    );
}

#[test]
fn space_and_tab_produce_nothing() {
    assert_eq!(lex(" \t \t"), Ok(vec![]));
    assert_eq!(lex("\ta\t b "), Ok(vec![ident("a"), ident("b")]));
}

#[test]
fn newline_is_a_token() {
    assert_eq!(lex("a\n\nb"), Ok(vec![ident("a"), Type::Enter, Type::Enter, ident("b")]));
}

#[test]
fn empty_source() {
    assert_eq!(lex(""), Ok(vec![]));
}

#[test]
fn invalid_characters() {
    assert_eq!(lex("#"), Err(LexError::InvalidCharacter('#')));
    assert_eq!(lex("@"), Err(LexError::InvalidCharacter('@')));
    assert_eq!(lex("!"), Err(LexError::InvalidCharacter('!')));
    assert_eq!(lex("a ? b"), Err(LexError::InvalidCharacter('?')));
    assert_eq!(lex("a\r\nb"), Err(LexError::InvalidCharacter('\r')));
    assert_eq!(lex("é"), Err(LexError::InvalidCharacter('é')));
}

#[test]
fn first_error_wins() {
    assert_eq!(lex("a # 99999999999999999999"), Err(LexError::InvalidCharacter('#')));
    assert_eq!(lex("99999999999999999999 #"), Err(LexError::NumberTooLarge));
}

#[test]
fn japanese_blocks() {
    let lexer = Lexer::new(String::new());
    assert!(lexer.is_japanese_char('あ'));
    assert!(lexer.is_japanese_char('ア'));
    assert!(lexer.is_japanese_char('漢'));
    assert!(lexer.is_japanese_char('\u{3040}'));
    assert!(lexer.is_japanese_char('\u{30FF}'));
    assert!(lexer.is_japanese_char('\u{3400}'));
    assert!(lexer.is_japanese_char('\u{9FFF}'));
    assert!(lexer.is_japanese_char('\u{20000}'));
    assert!(lexer.is_japanese_char('\u{F900}'));
    assert!(lexer.is_japanese_char('\u{2FA1F}'));
    assert!(!lexer.is_japanese_char('\u{303F}'));
    assert!(!lexer.is_japanese_char('\u{3100}'));
    assert!(!lexer.is_japanese_char('\u{A000}'));
    assert!(!lexer.is_japanese_char('a'));
    assert!(!lexer.is_japanese_char('1'));
    assert!(!lexer.is_japanese_char('é'));
}

#[test]
fn tokens_compare_by_value() {
    assert!(ident("a").same(&ident("a")));
    assert!(!ident("a").same(&ident("b")));
    assert!(!ident("a").same(&Type::DoubleQuotation("a".to_string())));
    assert!(Type::Number(3).same(&Type::Number(3)));
    assert!(!Type::Number(3).same(&Type::Number(4)));
    assert!(Type::Colon.same(&Type::Colon));
    assert!(!Type::Colon.same(&Type::SemiColon));
    assert_eq!(ident("abc").duplicate(), ident("abc"));
    assert_eq!(Type::Number(-5).duplicate(), Type::Number(-5));
    assert_eq!(Type::EOF.duplicate(), Type::EOF);
}
