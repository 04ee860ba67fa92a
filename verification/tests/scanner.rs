use puffin::ast::OpKind;
use puffin::scanner::{Scanner, Token};
use puffin::types::{Attribute, Value};

fn is_error_token(t: Token) -> bool {
    match t {
        Token::Error(_) => true,
        _ => false,
    }
}

#[test]
fn numbers() {
    let mut s = Scanner::new("1 2 123a ");

    assert_eq!(s.next_token(), Token::Value(Value::Int(1)));
    assert_eq!(s.next_token(), Token::Value(Value::Int(2)));
    assert!(is_error_token(s.next_token()));
    assert_eq!(s.next_token(), Token::Eof);
}

#[test]
fn binary_operators() {
    let mut s = Scanner::new("+ - */ > == =");

    assert_eq!(s.next_token(), Token::BinOp(OpKind::Plus));
    assert_eq!(s.next_token(), Token::BinOp(OpKind::Minus));
    assert_eq!(s.next_token(), Token::BinOp(OpKind::Multiply));
    assert_eq!(s.next_token(), Token::BinOp(OpKind::Divide));
    assert_eq!(s.next_token(), Token::BinOp(OpKind::Greater));
    assert_eq!(s.next_token(), Token::BinOp(OpKind::EqualEqual));
    assert_eq!(s.next_token(), Token::Equal);
    assert_eq!(s.next_token(), Token::Eof);
}

#[test]
fn compound_assignment_operators() {
    let mut s = Scanner::new("+ += - -=");

    assert_eq!(s.next_token(), Token::BinOp(OpKind::Plus));
    assert_eq!(s.next_token(), Token::PlusEqual);
    assert_eq!(s.next_token(), Token::BinOp(OpKind::Minus));
    assert_eq!(s.next_token(), Token::MinusEqual);
    assert_eq!(s.next_token(), Token::Eof);
}

#[test]
fn keywords() {
    let mut s = Scanner::new("BEGIN begin END end print");

    assert_eq!(s.next_token(), Token::Begin);
    assert_eq!(s.next_token(), Token::Begin);
    assert_eq!(s.next_token(), Token::End);
    assert_eq!(s.next_token(), Token::End);
    assert_eq!(s.next_token(), Token::Print);
    assert_eq!(s.next_token(), Token::Eof);
}

#[test]
fn attributes() {
    let mut s = Scanner::new(".size .invalid");

    assert_eq!(s.next_token(), Token::Attr(Attribute::Size));
    assert!(is_error_token(s.next_token()));
    assert_eq!(s.next_token(), Token::Eof);
}

#[test]
fn identifiers() {
    let mut s = Scanner::new("id id2 id .size id2");

    assert_eq!(s.next_token(), Token::Identifier("id".to_string()));
    assert_eq!(s.next_token(), Token::Identifier("id2".to_string()));
    assert_eq!(s.next_token(), Token::Identifier("id".to_string()));
    assert_eq!(s.next_token(), Token::Attr(Attribute::Size));
    assert_eq!(s.next_token(), Token::Identifier("id2".to_string()));
    assert_eq!(s.next_token(), Token::Eof);
}

#[test]
fn scanner_strings() {
    let mut s = Scanner::new("\"hey\" \"there\" \"error");

    assert_eq!(s.next_token(), Token::Value(Value::String("hey".to_string())));
    assert_eq!(s.next_token(), Token::Value(Value::String("there".to_string())));
    assert!(is_error_token(s.next_token()));
    assert_eq!(s.next_token(), Token::Eof);
}

#[test]
fn other_tokens() {
    let mut s = Scanner::new("{ } ;, []");
    assert_eq!(s.next_token(), Token::LeftBrace);
    assert_eq!(s.next_token(), Token::RightBrace);
    assert_eq!(s.next_token(), Token::Semicolon);
    assert_eq!(s.next_token(), Token::Comma);
    assert_eq!(s.next_token(), Token::LeftBracket);
    assert_eq!(s.next_token(), Token::RightBracket);
    assert_eq!(s.next_token(), Token::Eof);
}

#[test]
fn parentheses_and_logical_operators() {
    let mut s = Scanner::new("(and) or<= <>=");
    assert_eq!(s.next_token(), Token::LeftParen);
    assert_eq!(s.next_token(), Token::BinOp(OpKind::And));
    assert_eq!(s.next_token(), Token::RightParen);
    assert_eq!(s.next_token(), Token::BinOp(OpKind::Or));
    assert_eq!(s.next_token(), Token::BinOp(OpKind::LessEqual));
    assert_eq!(s.next_token(), Token::BinOp(OpKind::Less));
    assert_eq!(s.next_token(), Token::BinOp(OpKind::GreaterEqual));
    assert_eq!(s.next_token(), Token::Eof);
    assert_eq!(s.next_token(), Token::Eof);
}

#[test]
fn error_messages_name_the_text() {
    let mut s = Scanner::new(".invalid 12x ? \"open");
    assert_eq!(s.next_token(), Token::Error("Unknown attribute '.invalid'".to_string()));
    assert_eq!(s.next_token(), Token::Error("Could not parse number from '12x'".to_string()));
    assert_eq!(s.next_token(), Token::Error("Unexpected character: ?".to_string()));
    assert_eq!(
        s.next_token(),
        Token::Error("Unexpected end of input while parsing a string".to_string())
    );
    assert_eq!(s.next_token(), Token::Eof);
}

#[test]
fn number_out_of_range_is_an_error() {
    let mut s = Scanner::new("9223372036854775807 9223372036854775808");
    assert_eq!(s.next_token(), Token::Value(Value::Int(i64::MAX)));
    assert!(is_error_token(s.next_token()));
    assert_eq!(s.next_token(), Token::Eof);
}

#[test]
fn all_tokens_end_with_eof() {
    let mut s = Scanner::new("a = 1;");
    let tokens = s.tokens();
    assert_eq!(
        tokens,
        vec![
            Token::Identifier("a".to_string()),
            Token::Equal,
            Token::Value(Value::Int(1)),
            Token::Semicolon,
            Token::Eof
        ]
    );
    assert_eq!(s.num_vars(), 0);
}

#[test]
fn every_attribute_has_its_name() {
    let names = [
        (".blksize", Attribute::BlkSize),
        (".blocks", Attribute::Blocks),
        (".dev", Attribute::Dev),
        (".ino", Attribute::Ino),
        (".mode", Attribute::Mode),
        (".name", Attribute::Name),
        (".nlink", Attribute::NLink),
        (".owner", Attribute::Owner),
        (".group", Attribute::Group),
        (".path", Attribute::Path),
        (".rdev", Attribute::RDev),
        (".size", Attribute::Size),
        (".atime", Attribute::Atime),
        (".mtime", Attribute::Mtime),
        (".ctime", Attribute::Ctime),
        (".type", Attribute::Type),
    ];
    for (name, attr) in names {
        assert_eq!(Attribute::from_str(name), Some(attr));
    }
    assert_eq!(Attribute::from_str("size"), None);
    assert_eq!(Attribute::from_str(".Size"), None);
}
