use lua_lexer::lexer::Lexer;
use lua_lexer::token::Token;
use lua_lexer::token::TokenData;

fn lex(input: &str) -> Vec<Token> {
    Lexer::new(input.chars().collect()).to_tokens()
}

fn data(text: &str) -> TokenData {
    TokenData { source: text.to_string() }
}

fn ident(text: &str) -> Token {
    Token::Identifier(data(text))
}

fn num(text: &str) -> Token {
    Token::LiteralNumber(data(text))
}

fn string(text: &str) -> Token {
    Token::LiteralString(data(text))
}

fn comment(text: &str) -> Token {
    Token::Comment(data(text))
}

#[test]
fn empty_input_yields_no_tokens() {
    assert_eq!(lex(""), vec![]);
}

#[test]
fn whitespace_only_yields_no_tokens() {
    assert_eq!(lex("  \r\n \n"), vec![]);
}

#[test]
fn scenario_local_assignment() {
    assert_eq!(
        lex("local x = 5"),
        vec![Token::KeywordLocal, ident("x"), Token::OperatorAssignment, num("5")]
    );
}

#[test]
fn scenario_equality() {
    assert_eq!(lex("x == 5"), vec![ident("x"), Token::OperatorEquality, num("5")]);
}

#[test]
fn scenario_unary_minus() {
    assert_eq!(lex("-5"), vec![Token::OperatorUnary, num("5")]);
}

#[test]
fn scenario_subtraction_with_space() {
    assert_eq!(lex("- 5"), vec![Token::OperatorSubtraction, num("5")]);
}

#[test]
fn scenario_subtraction_assignment() {
    assert_eq!(
        lex("x -= 1"),
        vec![ident("x"), Token::OperatorSubtractionAssignment, num("1")]
    );
}

#[test]
fn scenario_comment_then_identifier() {
    assert_eq!(lex("--comment\nx"), vec![comment("comment"), ident("x")]);
}

#[test]
fn scenario_string_literal() {
    assert_eq!(lex("\"abc\""), vec![string("abc")]);
}

#[test]
fn scenario_unterminated_string() {
    assert_eq!(lex("\"abc"), vec![string("abc")]);
}

#[test]
fn scenario_unknown_character() {
    assert_eq!(lex("@"), vec![Token::UnknownCharacter('@')]);
}

#[test]
fn every_reserved_word_yields_its_keyword_token() {
    let table: Vec<(&str, Token)> = vec![
        ("local", Token::KeywordLocal),
        ("if", Token::KeywordIf),
        ("do", Token::KeywordDo),
        ("then", Token::KeywordThen),
        ("while", Token::KeywordWhile),
        ("repeat", Token::KeywordRepeat),
        ("until", Token::KeywordUntil),
        ("end", Token::KeywordEnd),
        ("else", Token::KeywordElse),
        ("elseif", Token::KeywordElseif),
        ("true", Token::LiteralTrue),
        ("false", Token::LiteralFalse),
        ("nil", Token::LiteralNil),
        ("in", Token::KeywordIn),
        ("break", Token::KeywordBreak),
        ("continue", Token::KeywordContinue),
        ("return", Token::KeywordReturn),
        ("and", Token::KeywordAnd),
        ("or", Token::KeywordOr),
        ("not", Token::KeywordNot),
        ("for", Token::KeywordFor),
        ("function", Token::KeywordFunction),
    ];
    for (word, expected) in table {
        assert_eq!(lex(word), vec![expected], "reserved word: {}", word);
    }
}

#[test]
fn identifier_run_is_one_token() {
    assert_eq!(lex("variable0"), vec![ident("variable0")]);
    assert_eq!(lex("_foo"), vec![ident("_foo")]);
    assert_eq!(lex("A1_b2"), vec![ident("A1_b2")]);
}

#[test]
fn keyword_prefix_is_still_an_identifier() {
    assert_eq!(lex("localx"), vec![ident("localx")]);
    assert_eq!(lex("If"), vec![ident("If")]);
}

#[test]
fn digit_run_is_one_token() {
    assert_eq!(lex("5123"), vec![num("5123")]);
    assert_eq!(lex("0"), vec![num("0")]);
}

#[test]
fn dot_terminates_a_number_run() {
    assert_eq!(lex("12.5"), vec![num("12"), Token::UnknownCharacter('.'), num("5")]);
}

#[test]
fn single_quoted_string() {
    assert_eq!(lex("'hi'"), vec![string("hi")]);
}

#[test]
fn other_quote_kind_inside_string() {
    assert_eq!(lex("\"a'b\""), vec![string("a'b")]);
}

#[test]
fn empty_string_literal() {
    assert_eq!(lex("\"\""), vec![string("")]);
}

#[test]
fn unterminated_comment_at_end_of_input() {
    assert_eq!(lex("--abc"), vec![comment("abc")]);
}

#[test]
fn empty_trailing_comment() {
    assert_eq!(lex("--"), vec![comment("")]);
}

#[test]
fn unary_minus_before_identifier() {
    assert_eq!(lex("a-b"), vec![ident("a"), Token::OperatorUnary, ident("b")]);
}

#[test]
fn minus_before_newline_is_unary() {
    assert_eq!(lex("-\n5"), vec![Token::OperatorUnary, num("5")]);
}

#[test]
fn minus_at_end_of_input_is_subtraction() {
    assert_eq!(lex("5 -"), vec![num("5"), Token::OperatorSubtraction]);
}

#[test]
fn operators_and_compound_assignments() {
    assert_eq!(
        lex("+ += * *= / /= % %= ^ ^="),
        vec![
            Token::OperatorAddition,
            Token::OperatorAdditionAssignment,
            Token::OperatorMultiplication,
            Token::OperatorMultiplicationAssignment,
            Token::OperatorDivision,
            Token::OperatorDivisionAssignment,
            Token::OperatorModulus,
            Token::OperatorModulusAssignment,
            Token::OperatorPower,
            Token::OperatorPowerAssignment,
        ]
    );
}

#[test]
fn comparison_operators() {
    assert_eq!(
        lex("= == > >= < <="),
        vec![
            Token::OperatorAssignment,
            Token::OperatorEquality,
            Token::OperatorGreater,
            Token::OperatorGreaterOrEqual,
            Token::OperatorLower,
            Token::OperatorLowerOrEqual,
        ]
    );
}

#[test]
fn brackets_and_length_operator() {
    assert_eq!(
        lex("#()[]{}"),
        vec![
            Token::OperatorLen,
            Token::OpenedBracket,
            Token::ClosedBracket,
            Token::OpenedSquareBracket,
            Token::ClosedSquareBracket,
            Token::OpenedCurlyBracket,
            Token::ClosedCurlyBracket,
        ]
    );
}

#[test]
fn parse_number_consumes_only_digits() {
    let mut lexer = Lexer::new("42abc".chars().collect());
    assert_eq!(lexer.parse_number(), "42".to_string());
}

#[test]
fn parse_till_stops_at_delimiter() {
    let mut lexer = Lexer::new("hello|rest".chars().collect());
    assert_eq!(lexer.parse_till('|'), "hello".to_string());
    assert_eq!(lexer.parse_till('X'), "rest".to_string());
}

#[test]
fn parse_identifier_classifies_keywords() {
    let mut lexer = Lexer::new("while".chars().collect());
    assert_eq!(lexer.parse_identifier(), Token::KeywordWhile);
    let mut lexer = Lexer::new("whale".chars().collect());
    assert_eq!(lexer.parse_identifier(), ident("whale"));
}

#[test]
fn small_program() {
    assert_eq!(
        lex("local function printDoom()\n    print(message_of_doom)\nend"),
        vec![
            Token::KeywordLocal,
            Token::KeywordFunction,
            ident("printDoom"),
            Token::OpenedBracket,
            Token::ClosedBracket,
            ident("print"),
            Token::OpenedBracket,
            ident("message_of_doom"),
            Token::ClosedBracket,
            Token::KeywordEnd,
        ]
    );
}
