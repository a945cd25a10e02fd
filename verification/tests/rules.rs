use gdpatch::gdscript::parser::rules::{get_rule, InfixParser, PrefixParser};
use gdpatch::gdscript::parser::Precedence;
use gdpatch::gdscript::TokenType;

#[test]
fn operator_rules() {
    let plus = get_rule(TokenType::Plus);
    assert_eq!(plus.prefix, Some(PrefixParser::UnaryOperator));
    let infix = plus.infix.unwrap();
    assert_eq!(infix.parser, InfixParser::BinaryOperator);
    assert_eq!(infix.precedence, Precedence::AdditionSubtraction);
    assert_eq!(plus.precedence(), Precedence::AdditionSubtraction);

    let not = get_rule(TokenType::Not);
    assert_eq!(not.prefix, Some(PrefixParser::UnaryOperator));
    assert_eq!(not.infix.unwrap().parser, InfixParser::BinaryNotInOperator);
    assert_eq!(not.precedence(), Precedence::ContentTest);

    assert_eq!(get_rule(TokenType::StarStarEqual).precedence(), Precedence::Assignment);
    assert_eq!(get_rule(TokenType::QuestionMark).infix.unwrap().parser, InfixParser::InvalidToken);
    assert_eq!(get_rule(TokenType::QuestionMark).precedence(), Precedence::Cast);
    assert_eq!(get_rule(TokenType::Period).precedence(), Precedence::Attribute);
    assert_eq!(get_rule(TokenType::Percent).prefix, Some(PrefixParser::GetNode));
}

#[test]
fn rules_without_infix() {
    let ident = get_rule(TokenType::Identifier);
    assert_eq!(ident.prefix, Some(PrefixParser::Identifier));
    assert!(ident.infix.is_none());
    assert_eq!(ident.precedence(), Precedence::NoPrecedence);
    let eof = get_rule(TokenType::Eof);
    assert!(eof.prefix.is_none() && eof.infix.is_none());
    assert_eq!(get_rule(TokenType::ConstNan).prefix, Some(PrefixParser::BuiltinConstant));
    assert_eq!(get_rule(TokenType::BracketOpen).prefix, Some(PrefixParser::Array));
    assert_eq!(get_rule(TokenType::BracketOpen).precedence(), Precedence::Subscript);
}
