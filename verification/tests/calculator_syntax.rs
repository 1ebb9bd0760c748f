use axonerai::tools::calculator::{parse, parse_expression_text, tokenize, Expr, SyntaxError, Token};

fn show(e: &Expr) -> String {
    match e {
        Expr::Number(n) => n.clone(),
        Expr::Add(l, r) => format!("(+ {} {})", show(l), show(r)),
        Expr::Subtract(l, r) => format!("(- {} {})", show(l), show(r)),
        Expr::Multiply(l, r) => format!("(* {} {})", show(l), show(r)),
        Expr::Divide(l, r) => format!("(/ {} {})", show(l), show(r)),
        Expr::Modulo(l, r) => format!("(% {} {})", show(l), show(r)),
        Expr::Exponent(l, r) => format!("(^ {} {})", show(l), show(r)),
        Expr::Factorial(x) => format!("(! {})", show(x)),
        Expr::Negate(x) => format!("(neg {})", show(x)),
    }
}

fn tree(input: &str) -> String {
    show(&parse_expression_text(input).expect("parses"))
}

fn error(input: &str) -> SyntaxError {
    match parse_expression_text(input) {
        Ok(e) => panic!("{input:?} parsed as {}", show(&e)),
        Err(x) => x,
    }
}

#[test]
fn multiplication_binds_tighter_than_addition() {
    assert_eq!(tree("2 + 3 * 4"), "(+ 2 (* 3 4))");
    assert_eq!(tree("3 + 4 * 2 / (1-5)^2"), "(+ 3 (/ (* 4 2) (^ (- 1 5) 2)))");
}

#[test]
fn operators_of_one_level_are_left_associative() {
    assert_eq!(tree("10 - 4 - 3"), "(- (- 10 4) 3)");
    assert_eq!(tree("8 / 2 % 3"), "(% (/ 8 2) 3)");
}

#[test]
fn exponent_is_right_associative() {
    assert_eq!(tree("2^3^2"), "(^ 2 (^ 3 2))");
    assert_eq!(tree("2 ^ 7.2"), "(^ 2 7.2)");
}

#[test]
fn factorial_and_unary_minus() {
    assert_eq!(tree("5!"), "(! 5)");
    assert_eq!(tree("3!!"), "(! (! 3))");
    assert_eq!(tree("-3 + 5"), "(+ (neg 3) 5)");
    assert_eq!(tree("--2"), "(neg (neg 2))");
    assert_eq!(tree("-(1+2)!"), "(! (neg (+ 1 2)))");
}

#[test]
fn number_literals_keep_their_text() {
    assert_eq!(tree(".5"), ".5");
    assert_eq!(tree("1."), "1.");
    assert_eq!(tree("007"), "007");
    assert_eq!(error("1.2.3"), SyntaxError::InvalidToken('1'));
    assert_eq!(error(". + 1"), SyntaxError::InvalidToken('.'));
}

#[test]
fn syntax_errors() {
    assert_eq!(error(""), SyntaxError::UnexpectedEndOfInput);
    assert_eq!(error("1 +"), SyntaxError::UnexpectedEndOfInput);
    assert_eq!(error("1 2"), SyntaxError::UnexpectedEndOfInput);
    assert_eq!(error("(1 + 2"), SyntaxError::MismatchedParentheses);
    assert_eq!(error("2 $ 3"), SyntaxError::InvalidToken('$'));
    assert_eq!(error("1\t+ 2"), SyntaxError::InvalidToken('\t'));
    assert_eq!(SyntaxError::InvalidToken('$').message(), "Invalid token: '$'");
    assert_eq!(SyntaxError::MismatchedParentheses.message(), "Mismatched parentheses");
    assert_eq!(SyntaxError::UnexpectedEndOfInput.message(), "Unexpected end of input");
}

#[test]
fn tokens_and_parse_agree() {
    let tokens = tokenize("(1+2)*3").expect("tokenizes");
    assert_eq!(tokens.len(), 7);
    assert!(matches!(&tokens[1], Token::Number(n) if n == "1"));
    assert!(matches!(tokens[6], Token::Number(_)));
    assert_eq!(show(&parse(&tokens).expect("parses")), "(* (+ 1 2) 3)");
    assert!(parse(&vec![Token::RightParen]).is_err());
}
