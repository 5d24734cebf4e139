use calculator::lexer::Lexer;
use calculator::parser::{parse, ParseError, Parser};
use calculator::token::{Node, OperPrec, Token};

fn num(s: &str) -> Node {
    Node::Number(s.to_string())
}

fn bx(n: Node) -> Box<Node> {
    Box::new(n)
}

fn value(n: &Node) -> f64 {
    match n {
        Node::Number(s) => s.parse::<f64>().unwrap(),
        Node::Add(l, r) => value(l) + value(r),
        Node::Sub(l, r) => value(l) - value(r),
        Node::Mul(l, r) => value(l) * value(r),
        Node::Div(l, r) => value(l) / value(r),
        Node::Pow(l, r) => value(l).powf(value(r)),
        Node::Neg(e) => -value(e),
    }
}

fn calc(text: &str) -> f64 {
    value(&parse(text).unwrap())
}

#[test]
fn multiplication_binds_tighter_than_addition() {
    let ast = parse("3+4*2").unwrap();
    assert_eq!(ast, Node::Add(bx(num("3")), bx(Node::Mul(bx(num("4")), bx(num("2"))))));
    assert_eq!(value(&ast), 11.0);
}

#[test]
fn parentheses_group_first() {
    let ast = parse("(3+4)*2").unwrap();
    assert_eq!(ast, Node::Mul(bx(Node::Add(bx(num("3")), bx(num("4")))), bx(num("2"))));
    assert_eq!(value(&ast), 14.0);
}

#[test]
fn power_chain_reenters_at_its_own_level() {
    let ast = parse("2^3^2").unwrap();
    assert_eq!(ast, Node::Pow(bx(Node::Pow(bx(num("2")), bx(num("3")))), bx(num("2"))));
    assert_eq!(value(&ast), 64.0);
}

#[test]
fn subtraction_chain_groups_to_the_left() {
    let ast = parse("8-3-2").unwrap();
    assert_eq!(ast, Node::Sub(bx(Node::Sub(bx(num("8")), bx(num("3")))), bx(num("2"))));
    assert_eq!(value(&ast), 3.0);
}

#[test]
fn mixed_levels_fold_in_order() {
    assert_eq!(calc("1+2*3-4/2"), 5.0);
    assert_eq!(calc("2*3^2"), 18.0);
    assert_eq!(calc("2.5*4"), 10.0);
    assert_eq!(calc("9^0.5"), 3.0);
}

#[test]
fn negation_then_addition() {
    let ast = parse("-5+3").unwrap();
    assert_eq!(ast, Node::Add(bx(Node::Neg(bx(num("5")))), bx(num("3"))));
    assert_eq!(value(&ast), -2.0);
}

#[test]
fn negation_takes_only_the_next_primary() {
    let ast = parse("-2^2").unwrap();
    assert_eq!(ast, Node::Pow(bx(Node::Neg(bx(num("2")))), bx(num("2"))));
    assert_eq!(value(&ast), 4.0);
    let ast = parse("--3").unwrap();
    assert_eq!(ast, Node::Neg(bx(Node::Neg(bx(num("3"))))));
}

#[test]
fn division_by_zero_is_infinite() {
    let v = calc("10/0");
    assert!(v.is_infinite() && v > 0.0);
    assert!(calc("0/0").is_nan());
}

#[test]
fn adjacent_parentheses_multiply() {
    let ast = parse("(1+2)(3+4)").unwrap();
    assert_eq!(
        ast,
        Node::Mul(
            bx(Node::Add(bx(num("1")), bx(num("2")))),
            bx(Node::Add(bx(num("3")), bx(num("4")))),
        )
    );
    assert_eq!(value(&ast), 21.0);
}

#[test]
fn missing_operand_is_unable_to_parse() {
    assert!(matches!(parse("3+"), Err(ParseError::UnableToParse(_))));
    assert!(matches!(parse("(1+2)-"), Err(ParseError::UnableToParse(_))));
}

#[test]
fn unknown_character_is_reported() {
    assert!(matches!(parse("3$4"), Err(ParseError::UnexpectedEndOfInput)));
    assert!(matches!(parse("$"), Err(ParseError::UnexpectedEndOfInput)));
}

#[test]
fn empty_input_is_end_of_input() {
    assert!(matches!(parse(""), Err(ParseError::UnexpectedEndOfInput)));
    assert!(matches!(Parser::new(""), Err(ParseError::UnexpectedEndOfInput)));
}

#[test]
fn missing_closing_parenthesis_is_unexpected_token() {
    assert!(matches!(parse("(3+4"), Err(ParseError::UnexpectedToken(_))));
    assert!(matches!(parse("(3+4("), Err(ParseError::UnexpectedToken(_))));
}

#[test]
fn operator_in_place_of_operand_is_unable_to_parse() {
    assert!(matches!(parse(")"), Err(ParseError::UnableToParse(_))));
    assert!(matches!(parse("3*+4"), Err(ParseError::UnableToParse(_))));
}

#[test]
fn trailing_tokens_are_not_read() {
    assert_eq!(parse("3)").unwrap(), num("3"));
    assert_eq!(parse("(2)3").unwrap(), num("2"));
}

#[test]
fn scanner_keeps_every_decimal_point() {
    assert_eq!(parse("1.2.3").unwrap(), num("1.2.3"));
    assert!("1.2.3".parse::<f64>().is_err());
}

#[test]
fn parsing_twice_gives_equal_trees() {
    let text = "(1.5+2)*-3^2/(4-1)(2)";
    let first = parse(text).unwrap();
    let second = parse(text).unwrap();
    assert_eq!(first, second);
    assert_eq!(value(&first).to_bits(), value(&second).to_bits());
}

#[test]
fn parser_built_by_hand_parses_the_same() {
    let mut p = Parser::new("7-2*3").unwrap();
    let ast = p.parse().unwrap();
    assert_eq!(ast, parse("7-2*3").unwrap());
    assert_eq!(value(&ast), 1.0);
}

#[test]
fn lexer_yields_tokens_then_end_repeatedly() {
    let mut lx = Lexer::new("12.5+(-)*/^7");
    assert_eq!(lx.next(), Some(Token::Number("12.5".to_string())));
    assert_eq!(lx.next(), Some(Token::Add));
    assert_eq!(lx.next(), Some(Token::LParen));
    assert_eq!(lx.next(), Some(Token::Subtract));
    assert_eq!(lx.next(), Some(Token::RParen));
    assert_eq!(lx.next(), Some(Token::Multiply));
    assert_eq!(lx.next(), Some(Token::Divide));
    assert_eq!(lx.next(), Some(Token::Pow));
    assert_eq!(lx.next(), Some(Token::Number("7".to_string())));
    assert_eq!(lx.next(), Some(Token::EOF));
    assert_eq!(lx.next(), Some(Token::EOF));
}

#[test]
fn lexer_stops_on_unknown_character() {
    let mut lx = Lexer::new("1a");
    assert_eq!(lx.next(), Some(Token::Number("1".to_string())));
    assert_eq!(lx.next(), None);
    let mut lx = Lexer::new(".5");
    assert_eq!(lx.next(), None);
}

#[test]
fn operator_levels() {
    assert_eq!(Token::Add.get_oper_prec(), OperPrec::AddSub);
    assert_eq!(Token::Subtract.get_oper_prec(), OperPrec::AddSub);
    assert_eq!(Token::Multiply.get_oper_prec(), OperPrec::MulDiv);
    assert_eq!(Token::Divide.get_oper_prec(), OperPrec::MulDiv);
    assert_eq!(Token::Pow.get_oper_prec(), OperPrec::Pow);
    assert_eq!(Token::LParen.get_oper_prec(), OperPrec::DefaultZero);
    assert_eq!(Token::EOF.get_oper_prec(), OperPrec::DefaultZero);
    assert_eq!(Token::Number("1".to_string()).get_oper_prec(), OperPrec::DefaultZero);
}

#[test]
fn levels_are_ordered() {
    let order = [
        OperPrec::DefaultZero,
        OperPrec::AddSub,
        OperPrec::MulDiv,
        OperPrec::Pow,
        OperPrec::Negative,
    ];
    for i in 0..order.len() {
        assert_eq!(order[i].level() as usize, i);
        for j in 0..order.len() {
            assert_eq!(order[i].is_weaker_than(&order[j]), i < j);
        }
    }
}

#[test]
fn errors_carry_their_descriptions() {
    match parse("(3") {
        Err(ParseError::UnexpectedToken(m)) => assert_eq!(m, "Unexpected token"),
        other => panic!("unexpected result {:?}", other),
    }
    match parse("*3") {
        Err(ParseError::UnableToParse(m)) => assert_eq!(m, "Unexpected token"),
        other => panic!("unexpected result {:?}", other),
    }
}

#[test]
fn tokens_are_named_as_their_debug_form() {
    assert_eq!(Token::Number("1.5".to_string()).name(), "Number(1.5)");
    assert_eq!(Token::RParen.name(), "RParen");
    assert_eq!(Token::EOF.name(), "EOF");
    assert_eq!(Token::Pow.name(), format!("{:?}", Token::Pow));
}

#[test]
fn trees_and_tokens_clone_whole() {
    let ast = parse("-(1+2)*3^4").unwrap();
    assert_eq!(ast.clone(), ast);
    let t = Token::Number("42".to_string());
    assert_eq!(t.clone(), t);
}

#[test]
fn levels_compare_with_operators() {
    assert!(OperPrec::DefaultZero < OperPrec::AddSub);
    assert!(OperPrec::AddSub < OperPrec::MulDiv);
    assert!(OperPrec::MulDiv < OperPrec::Pow);
    assert!(OperPrec::Pow < OperPrec::Negative);
}
