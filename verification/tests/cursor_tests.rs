use oxydant::cursor::Cursor;
use oxydant::token::Keyword;
use oxydant::token::Operator;
use oxydant::token::Token;

#[test]
fn cursor_test_cursor() {
    Cursor::new("Some Input Here");
    let c = Cursor::new("0123456");
    let d = Cursor::new("function FncName");
    let s = c.extract_substring(6, 7);
    let s2 = d.extract_substring(0, 1);
    println!("First string : {}, Second string {}", s.len(), s2.len());
    assert!(s == "6".as_bytes().to_vec());
    assert!(s2 == "f".as_bytes().to_vec());
    Cursor::new("struct FncName");
}

#[test]
fn mod_test_cursor() {
    let c = Cursor::new("0123456");
    let d = Cursor::new("function FncName");
    let s = c.extract_substring(6, 7);
    let s2 = d.extract_substring(0, 1);
    let s3 = c.extract_substring(0, 7);
    let s4 = d.extract_substring(0, 8);
    assert!(s == "6".as_bytes().to_vec());
    assert!(s2 == "f".as_bytes().to_vec());
    assert!(s3 == "0123456".as_bytes().to_vec());
    assert!(s4 == "function".as_bytes().to_vec());
}

#[test]
fn read_text() {
    let input = "fn + function - struct";
    let mut crs = Cursor::new(input);
    let tokens = crs.read();
    let tokens_verif = vec![
        Token::Keyword(Keyword::Function(0, 2)),
        Token::Whitespace(2, 3),
        Token::Operator(Operator::Add(3, 4)),
        Token::Whitespace(4, 5),
        Token::Keyword(Keyword::Function(5, 13)),
        Token::Whitespace(13, 14),
        Token::Operator(Operator::Subtract(14, 15)),
        Token::Whitespace(15, 16),
        Token::Keyword(Keyword::Struct(16, 22)),
    ];
    assert!(
        tokens == tokens_verif,
        "The tokens were not properly parsed."
    );
}

#[test]
fn extract_substring_clamps_out_of_range_bounds() {
    let c = Cursor::new("abc");
    assert!(c.extract_substring(0, 4) == Vec::<u8>::new());
    assert!(c.extract_substring(4, 4) == Vec::<u8>::new());
    assert!(c.extract_substring(2, 1) == Vec::<u8>::new());
    assert!(c.extract_substring(1, 1) == Vec::<u8>::new());
    assert!(c.extract_substring(2, 3) == "c".as_bytes().to_vec());
}

#[test]
fn position_starts_at_zero_and_advances() {
    let mut c = Cursor::new("abcdef");
    assert_eq!(c.position(), 0);
    c.advance(2);
    assert_eq!(c.position(), 2);
    c.advance(3);
    assert_eq!(c.position(), 5);
}

#[test]
fn read_of_empty_input_yields_no_tokens() {
    let mut c = Cursor::new("");
    let tokens = c.read();
    assert!(tokens.is_empty());
    assert_eq!(c.position(), 0);
}

#[test]
fn read_stops_with_position_at_end() {
    let mut c = Cursor::new("let x");
    let tokens = c.read();
    assert_eq!(c.position(), 5);
    assert_eq!(tokens.len(), 3);
}
