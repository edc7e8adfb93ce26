use paperclip::markup::{Expression, Node};
use paperclip::parser::parse;
use paperclip::statement::{parse_with_tokenizer, Statement};
use paperclip::tokenizer::{ParseError, Token, Tokenizer};

#[test]
fn unterminated_attribute_value_is_an_error() {
    assert_eq!(parse("<div a="), Err(ParseError::UnexpectedEof));
}

#[test]
fn slot_round_trips() {
    let expr = parse("{{x}}").unwrap();
    assert_eq!(expr, Expression { item: Node::Slot("x") });
    assert_eq!(expr.to_string(), "{{x}}");
}

#[test]
fn self_closing_and_open_close_forms_agree() {
    assert_eq!(parse("<div a='b' c />").unwrap(), parse("<div a='b' c></div>").unwrap());
}

#[test]
fn element_round_trips_up_to_whitespace() {
    let source = "<div a=\"b\">\n  text {{ slot }}\n  <span c></span>\n</div>";
    let text = parse(source).unwrap().to_string();
    assert_eq!(text.replace("\n", "").replace(" ", ""), source.replace("\n", "").replace(" ", ""));
}

#[test]
fn siblings_make_a_fragment() {
    let expr = parse("<a></a> <b />").unwrap();
    match expr.item {
        Node::Fragment(f) => assert_eq!(f.children.len(), 2),
        other => panic!("unexpected node {:?}", other),
    }
}

#[test]
fn malformed_markup_gives_positions() {
    assert_eq!(parse("</div>"), Err(ParseError::UnexpectedToken { position: 0 }));
    assert_eq!(parse("<div>"), Err(ParseError::UnexpectedEof));
    assert_eq!(parse("<div a=b>"), Err(ParseError::UnexpectedToken { position: 7 }));
    assert_eq!(parse("{{open"), Err(ParseError::UnexpectedEof));
    assert_eq!(parse(""), Ok(Expression { item: Node::Fragment(paperclip::markup::Fragment { children: vec![] }) }));
}

#[test]
fn reference_and_element_statements() {
    let mut t = Tokenizer::new(" a.b.c ");
    match parse_with_tokenizer(&mut t, |_k: Token| true).unwrap() {
        Statement::Reference(r) => assert_eq!(r.path, vec!["a".to_string(), "b".to_string(), "c".to_string()]),
        other => panic!("unexpected statement {:?}", other),
    }
    let mut t = Tokenizer::new("<div />");
    assert!(matches!(parse_with_tokenizer(&mut t, |_k: Token| true).unwrap(), Statement::Node(_)));
    let mut t = Tokenizer::new("a.>");
    assert_eq!(parse_with_tokenizer(&mut t, |_k: Token| true), Err(ParseError::UnexpectedToken { position: 2 }));
}

#[test]
fn tokens_are_classified() {
    let t = Tokenizer::new("{{a}}</b/>");
    assert_eq!(t.token_at(0), (Token::SlotOpen, 2));
    assert_eq!(t.token_at(2), (Token::Word, 3));
    assert_eq!(t.token_at(3), (Token::SlotClose, 5));
    assert_eq!(t.token_at(5), (Token::CloseTag, 7));
    assert_eq!(t.token_at(8), (Token::SelfCloseTag, 10));
    assert_eq!(t.token_at(10), (Token::Eof, 10));
}

#[test]
fn style_body_errors_are_passed_on() {
    assert_eq!(parse("<style>div { color red; }</style>"), Err(ParseError::UnexpectedToken { position: 19 }));
    match parse("<style>a, b:hover { x: y; }</style>").unwrap().item {
        Node::StyleElement(s) => assert_eq!(s.sheet.rules.len(), 1),
        other => panic!("unexpected node {:?}", other),
    }
}
