use hexpr::error::decimal;
use hexpr::lexer::{tokenize, Token, TokenKind};
use hexpr::{Expr, HExprParser, HObject, HOperation, ParseError, PipelineError, Variable};
use std::str::FromStr;

fn named(name: &str) -> Variable {
    Variable::Named(name.to_string())
}

#[test]
fn tokens_carry_their_positions() {
    assert_eq!(
        tokenize(" (ℝx [a.]\t})"),
        vec![
            Token { kind: TokenKind::OpenParen, position: 1 },
            Token { kind: TokenKind::Name("ℝx".to_string()), position: 2 },
            Token { kind: TokenKind::OpenBracket, position: 5 },
            Token { kind: TokenKind::Name("a".to_string()), position: 6 },
            Token { kind: TokenKind::Dot, position: 7 },
            Token { kind: TokenKind::CloseBracket, position: 8 },
            Token { kind: TokenKind::CloseBrace, position: 10 },
            Token { kind: TokenKind::CloseParen, position: 11 },
        ]
    );
    assert_eq!(tokenize(" \n\r\t"), vec![]);
}

#[test]
fn text_that_ends_too_early() {
    assert_eq!(HExprParser::parse_expr(""), Err(ParseError::UnexpectedEnd));
    assert_eq!(HExprParser::parse_expr("   "), Err(ParseError::UnexpectedEnd));
    assert_eq!(HExprParser::parse_expr("(add"), Err(ParseError::UnexpectedEnd));
    assert_eq!(HExprParser::parse_expr("{add (sub)"), Err(ParseError::UnexpectedEnd));
    assert_eq!(HExprParser::parse_expr("[x"), Err(ParseError::UnexpectedEnd));
    assert_eq!(HExprParser::parse_expr("[x ."), Err(ParseError::UnexpectedEnd));
}

#[test]
fn token_out_of_place() {
    assert_eq!(HExprParser::parse_expr(")"), Err(ParseError::UnexpectedToken(0)));
    assert_eq!(HExprParser::parse_expr(" ."), Err(ParseError::UnexpectedToken(1)));
    assert_eq!(HExprParser::parse_expr("(add }"), Err(ParseError::UnexpectedToken(5)));
    assert_eq!(HExprParser::parse_expr("{add )"), Err(ParseError::UnexpectedToken(5)));
    assert_eq!(HExprParser::parse_expr("[x (y)]"), Err(ParseError::UnexpectedToken(3)));
    assert_eq!(HExprParser::parse_expr("[x . y . z]"), Err(ParseError::UnexpectedToken(7)));
}

#[test]
fn text_behind_the_diagram() {
    assert_eq!(HExprParser::parse_expr("add sub"), Err(ParseError::TrailingInput(4)));
    assert_eq!(HExprParser::parse_expr("invalid[syntax"), Err(ParseError::TrailingInput(7)));
    assert_eq!(HExprParser::parse_expr("(a))"), Err(ParseError::TrailingInput(3)));
}

#[test]
fn parse_errors_as_text() {
    assert_eq!(
        ParseError::UnexpectedEnd.to_string(),
        "Parse error: unexpected end of input"
    );
    assert_eq!(
        ParseError::UnexpectedToken(12).to_string(),
        "Parse error: unexpected token at position 12"
    );
    assert_eq!(
        ParseError::TrailingInput(0).to_string(),
        "Parse error: trailing input at position 0"
    );
    assert_eq!(
        PipelineError::Parse(ParseError::TrailingInput(7)).to_string(),
        "Parse error: trailing input at position 7"
    );
}

#[test]
fn underscore_is_the_anonymous_variable() {
    assert_eq!(
        HExprParser::parse_expr("[_ x . _ _y]").unwrap(),
        Expr::Frobenius {
            inputs: vec![Variable::Anonymous, named("x")],
            outputs: vec![Variable::Anonymous, named("_y")],
        }
    );
    assert_eq!(Variable::from_str("_"), Ok(Variable::Anonymous));
    assert_eq!(Variable::from_str("x_"), Ok(named("x_")));
    assert_eq!(Variable::from_name("_"), Variable::Anonymous);
    assert_eq!(Variable::from_name("__"), named("__"));
}

#[test]
fn empty_brackets() {
    assert_eq!(HExprParser::parse_expr("()").unwrap(), Expr::Composition(vec![]));
    assert_eq!(HExprParser::parse_expr("{}").unwrap(), Expr::Tensor(vec![]));
    assert_eq!(
        HExprParser::parse_expr("[]").unwrap(),
        Expr::Frobenius { inputs: vec![], outputs: vec![] }
    );
}

#[test]
fn names_may_hold_any_other_character() {
    assert_eq!(
        HExprParser::parse_expr("{+ - ℝ→ℝ a,b}").unwrap(),
        Expr::Tensor(vec![
            Expr::Operation("+".to_string()),
            Expr::Operation("-".to_string()),
            Expr::Operation("ℝ→ℝ".to_string()),
            Expr::Operation("a,b".to_string()),
        ])
    );
}

#[test]
fn diagrams_as_text() {
    assert_eq!(Expr::Operation("add".to_string()).to_string(), "add");
    assert_eq!(HExprParser::parse_expr("( add   sub )").unwrap().to_string(), "(add sub)");
    assert_eq!(HExprParser::parse_expr("{add {} ()}").unwrap().to_string(), "{add {} ()}");
    assert_eq!(HExprParser::parse_expr("[x  x.x]").unwrap().to_string(), "[x x . x]");
    assert_eq!(HExprParser::parse_expr("[x _]").unwrap().to_string(), "[x _ . x _]");
    assert_eq!(HExprParser::parse_expr("[.]").unwrap().to_string(), "[ . ]");
    assert_eq!(HExprParser::parse_expr("[. x]").unwrap().to_string(), "[ . x]");
    assert_eq!(Variable::Anonymous.to_string(), "_");
    assert_eq!(named("wire").to_string(), "wire");
}

#[test]
fn text_of_a_diagram_reads_back_as_the_diagram() {
    for text in [
        "add",
        "([x y .] ([. y] - [z .]) [. x z] +)",
        "{(a {b c}) [_ . _ _] () {}}",
        "[ . ]",
    ] {
        let expr = HExprParser::parse_expr(text).unwrap();
        assert_eq!(HExprParser::parse_expr(&expr.to_string()).unwrap(), expr);
    }
}

#[test]
fn a_copy_of_a_diagram_is_the_diagram() {
    let expr = HExprParser::parse_expr("({[a _] -} (+) [. b])").unwrap();
    assert_eq!(expr.clone(), expr);
}

#[test]
fn labels_as_text() {
    assert_eq!(HObject::from("ℝ").to_string(), "ℝ");
    assert_eq!(HObject::from("ℝ".to_string()), HObject::Named("ℝ".to_string()));
    assert_eq!(HObject::Unknown.to_string(), "?");
    assert_eq!(HOperation::from("+").to_string(), "+");
    assert_eq!(HOperation::from("+".to_string()), HOperation("+".to_string()));
    assert!(HObject::from("a").same_as(&HObject::from("a")));
    assert!(!HObject::from("a").same_as(&HObject::from("b")));
    assert!(!HObject::from("a").same_as(&HObject::Unknown));
    assert!(HObject::Unknown.same_as(&HObject::Unknown));
    assert_eq!(HObject::from("ℝ").into_name(), "ℝ");
    assert_eq!(HObject::Unknown.into_name(), "");
}

#[test]
fn numbers_in_decimal() {
    assert_eq!(decimal(0), "0");
    assert_eq!(decimal(7), "7");
    assert_eq!(decimal(10), "10");
    assert_eq!(decimal(409), "409");
    assert_eq!(decimal(1234567890), "1234567890");
    assert_eq!(decimal(usize::MAX), usize::MAX.to_string());
}
