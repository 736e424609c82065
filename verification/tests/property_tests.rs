use oxydant::cursor::Cursor;
use oxydant::token::Length;
use oxydant::token::Token;

/// The bytes of `input` that a token stands for: the bytes of its span, or,
/// for the unknown fallback, the bytes it carries.
fn token_bytes(input: &[u8], token: &Token) -> Vec<u8> {
    match token {
        Token::Keyword(k) => match k {
            oxydant::token::Keyword::Function(a, b) => input[*a..*b].to_vec(),
            oxydant::token::Keyword::Struct(a, b) => input[*a..*b].to_vec(),
            oxydant::token::Keyword::Let(a, b) => input[*a..*b].to_vec(),
        },
        Token::Operator(o) => match o {
            oxydant::token::Operator::Assign(a, b) => input[*a..*b].to_vec(),
            oxydant::token::Operator::Equality(a, b) => input[*a..*b].to_vec(),
            oxydant::token::Operator::Unequality(a, b) => input[*a..*b].to_vec(),
            oxydant::token::Operator::And(a, b) => input[*a..*b].to_vec(),
            oxydant::token::Operator::Or(a, b) => input[*a..*b].to_vec(),
            oxydant::token::Operator::Add(a, b) => input[*a..*b].to_vec(),
            oxydant::token::Operator::Subtract(a, b) => input[*a..*b].to_vec(),
        },
        Token::Scope(s) => match s {
            oxydant::token::Scope::ParenthesisOpen(a, b) => input[*a..*b].to_vec(),
            oxydant::token::Scope::ParenthesisClose(a, b) => input[*a..*b].to_vec(),
            oxydant::token::Scope::SquareBracketOpen(a, b) => input[*a..*b].to_vec(),
            oxydant::token::Scope::SquareBracketClose(a, b) => input[*a..*b].to_vec(),
            oxydant::token::Scope::BraceOpen(a, b) => input[*a..*b].to_vec(),
            oxydant::token::Scope::BraceClose(a, b) => input[*a..*b].to_vec(),
            oxydant::token::Scope::ChevronOpen(a, b) => input[*a..*b].to_vec(),
            oxydant::token::Scope::ChevronClose(a, b) => input[*a..*b].to_vec(),
        },
        Token::Unknown(bytes) => bytes.clone(),
        Token::Whitespace(a, b) => input[*a..*b].to_vec(),
    }
}

fn scan(input: &str) -> Vec<Token> {
    let mut cursor = Cursor::new(input);
    cursor.read()
}

#[test]
fn coverage_concatenated_spans_reconstruct_the_input() {
    let inputs = [
        "fn + function - struct",
        "let x = (a != b) && {c}",
        "abc  de<>fg",
        "fna",
        "",
        " ",
        "word word",
    ];
    for input in inputs {
        let tokens = scan(input);
        let mut rebuilt: Vec<u8> = Vec::new();
        for t in &tokens {
            rebuilt.extend_from_slice(&token_bytes(input.as_bytes(), t));
        }
        assert_eq!(rebuilt, input.as_bytes().to_vec());
    }
}

#[test]
fn progress_every_token_is_at_least_one_byte() {
    let inputs = ["fn + function - struct", "zz z", "(){}[]<>", "   ", "a"];
    for input in inputs {
        for t in scan(input) {
            assert!(t.length() >= 1);
        }
    }
}

#[test]
fn rescan_yields_identical_token_sequences() {
    let inputs = ["fn + function - struct", "let==st", "junk (here)"];
    for input in inputs {
        let first = scan(input);
        let second = scan(input);
        assert_eq!(first, second);
    }
}

#[test]
fn unknown_spans_stop_before_trailing_whitespace() {
    let mut c = Cursor::new("ab c");
    let tokens = c.read();
    assert_eq!(
        tokens,
        vec![
            Token::Unknown("ab".as_bytes().to_vec()),
            Token::Whitespace(2, 3),
            Token::Unknown("c".as_bytes().to_vec()),
        ]
    );
}

#[test]
fn unknown_spans_measure_bytes_not_characters() {
    // A two-byte character scans as a single unknown token of two bytes.
    let input = String::from_utf8(vec![195, 169]).unwrap();
    let mut c = Cursor::new(&input);
    let tokens = c.read();
    assert_eq!(tokens, vec![Token::Unknown(vec![195, 169])]);
    assert_eq!(tokens[0].length(), 2);
}

#[test]
fn whitespace_tokens_carry_their_byte_span() {
    let tokens = scan("  ");
    assert_eq!(
        tokens,
        vec![Token::Whitespace(0, 1), Token::Whitespace(1, 2)]
    );
}
