use oxydant::cursor::Cursor;
use oxydant::token::Keyword;
use oxydant::token::Length;
use oxydant::token::Operator;
use oxydant::token::Scope;
use oxydant::token::Token;
use oxydant::token::parse_token;

#[test]
fn name() {
    let c = Cursor::new("let");
    let token1 = parse_token(&c);
    let c = Cursor::new("fna");
    let token2 = parse_token(&c);
    let c = Cursor::new("struct");
    let token3 = parse_token(&c);
    let c = Cursor::new("+");
    let token4 = parse_token(&c);
    println!("{:?} {:?} {:?} {:?}", token1, token2, token3, token4);
    assert_eq!(token1, Token::Keyword(Keyword::Let(0, 3)));
    assert_eq!(token2, Token::Unknown("fna".as_bytes().to_vec()));
    assert_eq!(token3, Token::Keyword(Keyword::Struct(0, 6)));
    assert_eq!(token4, Token::Operator(Operator::Add(0, 1)));
}

#[test]
fn boundary_rule_rejects_keyword_prefix_of_identifier() {
    // "fn" stands at the start of "fna", but the byte after it is not a
    // permitted boundary character, so the whole word falls through to the
    // unknown fallback.
    let mut c = Cursor::new("fna");
    let tokens = c.read();
    assert_eq!(tokens, vec![Token::Unknown("fna".as_bytes().to_vec())]);

    let mut c = Cursor::new("fname");
    let tokens = c.read();
    assert_eq!(tokens, vec![Token::Unknown("fname".as_bytes().to_vec())]);

    let mut c = Cursor::new("functionx");
    let tokens = c.read();
    assert_eq!(tokens, vec![Token::Unknown("functionx".as_bytes().to_vec())]);
}

#[test]
fn keyword_accepted_at_end_of_input() {
    let mut c = Cursor::new("let");
    let tokens = c.read();
    assert_eq!(tokens, vec![Token::Keyword(Keyword::Let(0, 3))]);
}

#[test]
fn keyword_families_match_in_declared_order() {
    let mut c = Cursor::new("fun x");
    let tokens = c.read();
    assert_eq!(
        tokens,
        vec![
            Token::Keyword(Keyword::Function(0, 3)),
            Token::Whitespace(3, 4),
            Token::Unknown("x".as_bytes().to_vec()),
        ]
    );

    let mut c = Cursor::new("st");
    let tokens = c.read();
    assert_eq!(tokens, vec![Token::Keyword(Keyword::Struct(0, 2))]);
}

#[test]
fn operators_match_in_declared_order() {
    // "=" is declared before "==", and candidates are tried in declared
    // order with exact-length comparison, so a double equals sign scans as
    // two assignments.
    let mut c = Cursor::new("==");
    let tokens = c.read();
    assert_eq!(
        tokens,
        vec![
            Token::Operator(Operator::Assign(0, 1)),
            Token::Operator(Operator::Assign(1, 2)),
        ]
    );

    let mut c = Cursor::new("!=");
    let tokens = c.read();
    assert_eq!(tokens, vec![Token::Operator(Operator::Unequality(0, 2))]);

    let mut c = Cursor::new("&&");
    let tokens = c.read();
    assert_eq!(tokens, vec![Token::Operator(Operator::And(0, 2))]);

    let mut c = Cursor::new("||");
    let tokens = c.read();
    assert_eq!(tokens, vec![Token::Operator(Operator::Or(0, 2))]);

    let mut c = Cursor::new("-");
    let tokens = c.read();
    assert_eq!(tokens, vec![Token::Operator(Operator::Subtract(0, 1))]);
}

#[test]
fn scope_characters_scan_as_single_byte_tokens() {
    let mut c = Cursor::new("(){}[]<>");
    let tokens = c.read();
    assert_eq!(
        tokens,
        vec![
            Token::Scope(Scope::ParenthesisOpen(0, 1)),
            Token::Scope(Scope::ParenthesisClose(1, 2)),
            Token::Scope(Scope::BraceOpen(2, 3)),
            Token::Scope(Scope::BraceClose(3, 4)),
            Token::Scope(Scope::SquareBracketOpen(4, 5)),
            Token::Scope(Scope::SquareBracketClose(5, 6)),
            Token::Scope(Scope::ChevronOpen(6, 7)),
            Token::Scope(Scope::ChevronClose(7, 8)),
        ]
    );
    for t in &tokens {
        assert_eq!(t.length(), 1);
        assert!(matches!(t, Token::Scope(_)));
    }
}

#[test]
fn token_lengths_follow_their_spans() {
    assert_eq!(Token::Keyword(Keyword::Function(5, 13)).length(), 8);
    assert_eq!(Token::Operator(Operator::Equality(3, 5)).length(), 2);
    assert_eq!(Token::Whitespace(2, 3).length(), 1);
    assert_eq!(Token::Unknown("fna".as_bytes().to_vec()).length(), 3);
    assert_eq!(Token::Scope(Scope::BraceOpen(0, 1)).length(), 1);
    assert_eq!(Keyword::Let(0, 3).length(), 3);
    assert_eq!(Operator::Subtract(14, 15).length(), 1);
}
