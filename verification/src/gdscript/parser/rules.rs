//! The parser's rule table: how each token type starts or continues an expression.
use vstd::prelude::*;
use crate::gdscript::TokenType;
use crate::gdscript::parser::{Precedence, precedence_rank};
use crate::gdscript::{Token, spec_token_type};
use crate::gdscript::tokenizer::text::operator_text;

verus! {

/// The parse step for a token that starts an expression.
#[derive(Debug, Copy, Clone, PartialEq, Eq, Structural)]
pub enum PrefixParser {
    Identifier,
    Literal,
    UnaryOperator,
    GetNode,
    Await,
    Lambda,
    Preload,
    SelfReference,
    CallPrefix,
    Yield,
    Array,
    Dictionary,
    Grouping,
    BuiltinConstant,
}

/// The parse step for a token that continues an expression after an operand.
#[derive(Debug, Copy, Clone, PartialEq, Eq, Structural)]
pub enum InfixParser {
    BinaryOperator,
    BinaryNotInOperator,
    Assignment,
    TernaryOperator,
    Cast,
    TypeTest,
    Subscript,
    CallInfix,
    Attribute,
    InvalidToken,
}

/// How a token continues an expression, and how tightly it binds.
#[derive(Debug, Copy, Clone)]
pub struct InfixRule {
    pub parser: InfixParser,
    pub precedence: Precedence,
}

impl InfixRule {
    pub fn new(parser: InfixParser, precedence: Precedence) -> (r: Self)
        ensures
            r.parser == parser,
            r.precedence == precedence,
    {
        Self { parser, precedence }
    }
}

/// How a token starts and continues expressions.
#[derive(Debug, Copy, Clone)]
pub struct ParseRule {
    pub prefix: Option<PrefixParser>,
    pub infix: Option<InfixRule>,
}

impl ParseRule {
    fn new(prefix: Option<PrefixParser>, infix: Option<InfixRule>) -> (r: Self)
        ensures
            r.prefix == prefix,
            r.infix == infix,
    {
        ParseRule { prefix, infix }
    }

    /// How tightly the token binds as an infix operator; `NoPrecedence` when it is none.
    pub fn precedence(&self) -> (r: Precedence)
        ensures
            r == match self.infix {
                Some(i) => i.precedence,
                None => Precedence::NoPrecedence,
            },
    {
        let Some(infix) = &self.infix else {
            return Precedence::NoPrecedence;
        };
        infix.precedence
    }
}

/// Whether the rule table covers `t`: the token types of GDScript 1 have no rule.
pub open spec fn has_rule(t: TokenType) -> bool {
    match t {
        TokenType::Do | TokenType::Case | TokenType::Switch | TokenType::Slave | TokenType::SlaveSync
        | TokenType::BuiltInType | TokenType::BuiltInFunc | TokenType::OnReady | TokenType::Tool
        | TokenType::Export | TokenType::SetGet | TokenType::Remote | TokenType::Sync | TokenType::Master
        | TokenType::Puppet | TokenType::RemoteSync | TokenType::MasterSync | TokenType::PuppetSync
        | TokenType::Wildcard | TokenType::Cursor | TokenType::Abstract => false,
        _ => true,
    }
}

/// The step that parses an expression starting with a token of type `t`.
pub open spec fn prefix_parser(t: TokenType) -> Option<PrefixParser> {
    match t {
        TokenType::Identifier => Some(PrefixParser::Identifier),
        TokenType::Literal => Some(PrefixParser::Literal),
        TokenType::Not | TokenType::Bang | TokenType::Tilde | TokenType::Plus | TokenType::Minus =>
            Some(PrefixParser::UnaryOperator),
        TokenType::Percent | TokenType::Dollar => Some(PrefixParser::GetNode),
        TokenType::Await => Some(PrefixParser::Await),
        TokenType::Func => Some(PrefixParser::Lambda),
        TokenType::Preload => Some(PrefixParser::Preload),
        TokenType::_Self => Some(PrefixParser::SelfReference),
        TokenType::Super => Some(PrefixParser::CallPrefix),
        TokenType::Yield => Some(PrefixParser::Yield),
        TokenType::BracketOpen => Some(PrefixParser::Array),
        TokenType::BraceOpen => Some(PrefixParser::Dictionary),
        TokenType::ParenthesisOpen => Some(PrefixParser::Grouping),
        TokenType::ConstPi | TokenType::ConstTau | TokenType::ConstInf | TokenType::ConstNan =>
            Some(PrefixParser::BuiltinConstant),
        _ => None,
    }
}

/// The step that continues an expression with a token of type `t`, and its precedence.
pub open spec fn infix_parser(t: TokenType) -> Option<(InfixParser, Precedence)> {
    match t {
        TokenType::Less | TokenType::LessEqual | TokenType::Greater | TokenType::GreaterEqual
        | TokenType::EqualEqual | TokenType::BangEqual => Some((InfixParser::BinaryOperator, Precedence::Comparison)),
        TokenType::And | TokenType::AmpersandAmpersand => Some((InfixParser::BinaryOperator, Precedence::LogicAnd)),
        TokenType::Or | TokenType::PipePipe => Some((InfixParser::BinaryOperator, Precedence::LogicOr)),
        TokenType::Not => Some((InfixParser::BinaryNotInOperator, Precedence::ContentTest)),
        TokenType::In => Some((InfixParser::BinaryOperator, Precedence::ContentTest)),
        TokenType::Ampersand => Some((InfixParser::BinaryOperator, Precedence::BitAnd)),
        TokenType::Pipe => Some((InfixParser::BinaryOperator, Precedence::BitOr)),
        TokenType::Caret => Some((InfixParser::BinaryOperator, Precedence::BitXor)),
        TokenType::LessLess | TokenType::GreaterGreater => Some((InfixParser::BinaryOperator, Precedence::BitShift)),
        TokenType::Plus | TokenType::Minus => Some((InfixParser::BinaryOperator, Precedence::AdditionSubtraction)),
        TokenType::Star | TokenType::Slash | TokenType::Percent => Some((InfixParser::BinaryOperator, Precedence::Factor)),
        TokenType::StarStar => Some((InfixParser::BinaryOperator, Precedence::Power)),
        TokenType::Equal | TokenType::PlusEqual | TokenType::MinusEqual | TokenType::StarEqual
        | TokenType::StarStarEqual | TokenType::SlashEqual | TokenType::PercentEqual | TokenType::LessLessEqual
        | TokenType::GreaterGreaterEqual | TokenType::AmpersandEqual | TokenType::PipeEqual
        | TokenType::CaretEqual => Some((InfixParser::Assignment, Precedence::Assignment)),
        TokenType::If => Some((InfixParser::TernaryOperator, Precedence::Ternary)),
        TokenType::As => Some((InfixParser::Cast, Precedence::Cast)),
        TokenType::QuestionMark => Some((InfixParser::InvalidToken, Precedence::Cast)),
        TokenType::Is => Some((InfixParser::TypeTest, Precedence::TypeTest)),
        TokenType::BracketOpen => Some((InfixParser::Subscript, Precedence::Subscript)),
        TokenType::ParenthesisOpen => Some((InfixParser::CallInfix, Precedence::Call)),
        TokenType::Period => Some((InfixParser::Attribute, Precedence::Attribute)),
        _ => None,
    }
}

/// The rule for a token type of GDScript 2.
pub fn get_rule(token: TokenType) -> (r: ParseRule)
    requires
        has_rule(token),
    ensures
        r.prefix == prefix_parser(token),
        match infix_parser(token) {
            Some((parser, precedence)) => r.infix matches Some(i) && i.parser == parser && i.precedence == precedence,
            None => r.infix is None,
        },
{
    match token {
        TokenType::Empty => ParseRule::new(None, None),
        TokenType::Annotation => ParseRule::new(None, None),
        TokenType::Identifier => ParseRule::new(Some(PrefixParser::Identifier), None),
        TokenType::Literal => ParseRule::new(Some(PrefixParser::Literal), None),
        TokenType::Less => ParseRule::new(
            None,
            Some(InfixRule::new(InfixParser::BinaryOperator, Precedence::Comparison)),
        ),
        TokenType::LessEqual => ParseRule::new(
            None,
            Some(InfixRule::new(InfixParser::BinaryOperator, Precedence::Comparison)),
        ),
        TokenType::Greater => ParseRule::new(
            None,
            Some(InfixRule::new(InfixParser::BinaryOperator, Precedence::Comparison)),
        ),
        TokenType::GreaterEqual => ParseRule::new(
            None,
            Some(InfixRule::new(InfixParser::BinaryOperator, Precedence::Comparison)),
        ),
        TokenType::EqualEqual => ParseRule::new(
            None,
            Some(InfixRule::new(InfixParser::BinaryOperator, Precedence::Comparison)),
        ),
        TokenType::BangEqual => ParseRule::new(
            None,
            Some(InfixRule::new(InfixParser::BinaryOperator, Precedence::Comparison)),
        ),
        TokenType::And => ParseRule::new(
            None,
            Some(InfixRule::new(InfixParser::BinaryOperator, Precedence::LogicAnd)),
        ),
        TokenType::Or => ParseRule::new(
            None,
            Some(InfixRule::new(InfixParser::BinaryOperator, Precedence::LogicOr)),
        ),
        TokenType::Not => ParseRule::new(
            Some(PrefixParser::UnaryOperator),
            Some(InfixRule::new(InfixParser::BinaryNotInOperator, Precedence::ContentTest)),
        ),
        TokenType::AmpersandAmpersand => ParseRule::new(
            None,
            Some(InfixRule::new(InfixParser::BinaryOperator, Precedence::LogicAnd)),
        ),
        TokenType::PipePipe => ParseRule::new(
            None,
            Some(InfixRule::new(InfixParser::BinaryOperator, Precedence::LogicOr)),
        ),
        TokenType::Bang => ParseRule::new(Some(PrefixParser::UnaryOperator), None),
        TokenType::Ampersand => ParseRule::new(
            None,
            Some(InfixRule::new(InfixParser::BinaryOperator, Precedence::BitAnd)),
        ),
        TokenType::Pipe => ParseRule::new(
            None,
            Some(InfixRule::new(InfixParser::BinaryOperator, Precedence::BitOr)),
        ),
        TokenType::Tilde => ParseRule::new(Some(PrefixParser::UnaryOperator), None),
        TokenType::Caret => ParseRule::new(
            None,
            Some(InfixRule::new(InfixParser::BinaryOperator, Precedence::BitXor)),
        ),
        TokenType::LessLess => ParseRule::new(
            None,
            Some(InfixRule::new(InfixParser::BinaryOperator, Precedence::BitShift)),
        ),
        TokenType::GreaterGreater => ParseRule::new(
            None,
            Some(InfixRule::new(InfixParser::BinaryOperator, Precedence::BitShift)),
        ),
        TokenType::Plus => ParseRule::new(
            Some(PrefixParser::UnaryOperator),
            Some(InfixRule::new(InfixParser::BinaryOperator, Precedence::AdditionSubtraction)),
        ),
        TokenType::Minus => ParseRule::new(
            Some(PrefixParser::UnaryOperator),
            Some(InfixRule::new(InfixParser::BinaryOperator, Precedence::AdditionSubtraction)),
        ),
        TokenType::Star => ParseRule::new(
            None,
            Some(InfixRule::new(InfixParser::BinaryOperator, Precedence::Factor)),
        ),
        TokenType::StarStar => ParseRule::new(
            None,
            Some(InfixRule::new(InfixParser::BinaryOperator, Precedence::Power)),
        ),
        TokenType::Slash => ParseRule::new(
            None,
            Some(InfixRule::new(InfixParser::BinaryOperator, Precedence::Factor)),
        ),
        TokenType::Percent => ParseRule::new(
            Some(PrefixParser::GetNode),
            Some(InfixRule::new(InfixParser::BinaryOperator, Precedence::Factor)),
        ),
        TokenType::Equal => ParseRule::new(
            None,
            Some(InfixRule::new(InfixParser::Assignment, Precedence::Assignment)),
        ),
        TokenType::PlusEqual => ParseRule::new(
            None,
            Some(InfixRule::new(InfixParser::Assignment, Precedence::Assignment)),
        ),
        TokenType::MinusEqual => ParseRule::new(
            None,
            Some(InfixRule::new(InfixParser::Assignment, Precedence::Assignment)),
        ),
        TokenType::StarEqual => ParseRule::new(
            None,
            Some(InfixRule::new(InfixParser::Assignment, Precedence::Assignment)),
        ),
        TokenType::StarStarEqual => ParseRule::new(
            None,
            Some(InfixRule::new(InfixParser::Assignment, Precedence::Assignment)),
        ),
        TokenType::SlashEqual => ParseRule::new(
            None,
            Some(InfixRule::new(InfixParser::Assignment, Precedence::Assignment)),
        ),
        TokenType::PercentEqual => ParseRule::new(
            None,
            Some(InfixRule::new(InfixParser::Assignment, Precedence::Assignment)),
        ),
        TokenType::LessLessEqual => ParseRule::new(
            None,
            Some(InfixRule::new(InfixParser::Assignment, Precedence::Assignment)),
        ),
        TokenType::GreaterGreaterEqual => ParseRule::new(
            None,
            Some(InfixRule::new(InfixParser::Assignment, Precedence::Assignment)),
        ),
        TokenType::AmpersandEqual => ParseRule::new(
            None,
            Some(InfixRule::new(InfixParser::Assignment, Precedence::Assignment)),
        ),
        TokenType::PipeEqual => ParseRule::new(
            None,
            Some(InfixRule::new(InfixParser::Assignment, Precedence::Assignment)),
        ),
        TokenType::CaretEqual => ParseRule::new(
            None,
            Some(InfixRule::new(InfixParser::Assignment, Precedence::Assignment)),
        ),
        TokenType::If => ParseRule::new(
            None,
            Some(InfixRule::new(InfixParser::TernaryOperator, Precedence::Ternary)),
        ),
        TokenType::Elif => ParseRule::new(None, None),
        TokenType::Else => ParseRule::new(None, None),
        TokenType::For => ParseRule::new(None, None),
        TokenType::While => ParseRule::new(None, None),
        TokenType::Break => ParseRule::new(None, None),
        TokenType::Continue => ParseRule::new(None, None),
        TokenType::Pass => ParseRule::new(None, None),
        TokenType::Return => ParseRule::new(None, None),
        TokenType::Match => ParseRule::new(None, None),
        TokenType::When => ParseRule::new(None, None),
        TokenType::As => ParseRule::new(
            None,
            Some(InfixRule::new(InfixParser::Cast, Precedence::Cast)),
        ),
        TokenType::Assert => ParseRule::new(None, None),
        TokenType::Await => ParseRule::new(Some(PrefixParser::Await), None),
        TokenType::Breakpoint => ParseRule::new(None, None),
        TokenType::Class => ParseRule::new(None, None),
        TokenType::ClassName => ParseRule::new(None, None),
        TokenType::Const => ParseRule::new(None, None),
        TokenType::Enum => ParseRule::new(None, None),
        TokenType::Extends => ParseRule::new(None, None),
        TokenType::Func => ParseRule::new(Some(PrefixParser::Lambda), None),
        TokenType::In => ParseRule::new(
            None,
            Some(InfixRule::new(InfixParser::BinaryOperator, Precedence::ContentTest)),
        ),
        TokenType::Is => ParseRule::new(
            None,
            Some(InfixRule::new(InfixParser::TypeTest, Precedence::TypeTest)),
        ),
        TokenType::Namespace => ParseRule::new(None, None),
        TokenType::Preload => ParseRule::new(Some(PrefixParser::Preload), None),
        TokenType::_Self => ParseRule::new(Some(PrefixParser::SelfReference), None),
        TokenType::Signal => ParseRule::new(None, None),
        TokenType::Static => ParseRule::new(None, None),
        TokenType::Super => ParseRule::new(Some(PrefixParser::CallPrefix), None),
        TokenType::Trait => ParseRule::new(None, None),
        TokenType::Var => ParseRule::new(None, None),
        TokenType::Void => ParseRule::new(None, None),
        TokenType::Yield => ParseRule::new(Some(PrefixParser::Yield), None),
        TokenType::BracketOpen => ParseRule::new(
            Some(PrefixParser::Array),
            Some(InfixRule::new(InfixParser::Subscript, Precedence::Subscript)),
        ),
        TokenType::BracketClose => ParseRule::new(None, None),
        TokenType::BraceOpen => ParseRule::new(Some(PrefixParser::Dictionary), None),
        TokenType::BraceClose => ParseRule::new(None, None),
        TokenType::ParenthesisOpen => ParseRule::new(
            Some(PrefixParser::Grouping),
            Some(InfixRule::new(InfixParser::CallInfix, Precedence::Call)),
        ),
        TokenType::ParenthesisClose => ParseRule::new(None, None),
        TokenType::Comma => ParseRule::new(None, None),
        TokenType::Semicolon => ParseRule::new(None, None),
        TokenType::Period => ParseRule::new(
            None,
            Some(InfixRule::new(InfixParser::Attribute, Precedence::Attribute)),
        ),
        TokenType::PeriodPeriod => ParseRule::new(None, None),
        TokenType::PeriodPeriodPeriod => ParseRule::new(None, None),
        TokenType::Colon => ParseRule::new(None, None),
        TokenType::Dollar => ParseRule::new(Some(PrefixParser::GetNode), None),
        TokenType::ForwardArrow => ParseRule::new(None, None),
        TokenType::Underscore => ParseRule::new(None, None),
        TokenType::Newline => ParseRule::new(None, None),
        TokenType::Indent => ParseRule::new(None, None),
        TokenType::Dedent => ParseRule::new(None, None),
        TokenType::ConstPi => ParseRule::new(Some(PrefixParser::BuiltinConstant), None),
        TokenType::ConstTau => ParseRule::new(Some(PrefixParser::BuiltinConstant), None),
        TokenType::ConstInf => ParseRule::new(Some(PrefixParser::BuiltinConstant), None),
        TokenType::ConstNan => ParseRule::new(Some(PrefixParser::BuiltinConstant), None),
        TokenType::VcsConflictMarker => ParseRule::new(None, None),
        TokenType::Backtick => ParseRule::new(None, None),
        TokenType::QuestionMark => ParseRule::new(
            None,
            Some(InfixRule::new(InfixParser::InvalidToken, Precedence::Cast)),
        ),
        TokenType::Error => ParseRule::new(None, None),
        TokenType::Eof => ParseRule::new(None, None),
        _ => ParseRule::new(None, None),
    }
}


/// How tightly the binary operator spelled `x` binds: `**` tightest, then `*` `/` `%`, `+` `-`,
/// `<<` `>>`, `&`, `^`, `|`, the comparisons, `&&`, `||`, and the assignments loosest.
pub open spec fn spelled_binding(x: Seq<char>) -> Option<nat> {
    if spelled(x, seq!['*', '*']) {
        Some(11)
    } else if spelled(x, seq!['*']) || spelled(x, seq!['/']) || spelled(x, seq!['%']) {
        Some(10)
    } else if spelled(x, seq!['+']) || spelled(x, seq!['-']) {
        Some(9)
    } else if spelled(x, seq!['<', '<']) || spelled(x, seq!['>', '>']) {
        Some(8)
    } else if spelled(x, seq!['&']) {
        Some(7)
    } else if spelled(x, seq!['^']) {
        Some(6)
    } else if spelled(x, seq!['|']) {
        Some(5)
    } else if spelled(x, seq!['<']) || spelled(x, seq!['<', '=']) || spelled(x, seq!['>']) || spelled(x, seq!['>', '='])
        || spelled(x, seq!['=', '=']) || spelled(x, seq!['!', '=']) {
        Some(4)
    } else if spelled(x, seq!['&', '&']) {
        Some(3)
    } else if spelled(x, seq!['|', '|']) {
        Some(2)
    } else if spelled(x, seq!['=']) || (x.len() >= 2 && x.last() == '=' && has_compound_form(x.drop_last())) {
        Some(1)
    } else {
        None
    }
}

/// Whether `x` is spelled `y` (compared character by character; `y` has at most two characters).
pub open spec fn spelled(x: Seq<char>, y: Seq<char>) -> bool {
    &&& x.len() == y.len()
    &&& (y.len() > 0 ==> x[0] == y[0])
    &&& (y.len() > 1 ==> x[1] == y[1])
}

/// Operators that have a compound assignment form (`+=` and the like).
pub open spec fn has_compound_form(x: Seq<char>) -> bool {
    spelled(x, seq!['+']) || spelled(x, seq!['-']) || spelled(x, seq!['*']) || spelled(x, seq!['*', '*'])
        || spelled(x, seq!['/']) || spelled(x, seq!['%']) || spelled(x, seq!['<', '<']) || spelled(x, seq!['>', '>'])
        || spelled(x, seq!['&']) || spelled(x, seq!['|']) || spelled(x, seq!['^'])
}

/// The precedence a token spelled as a binary or assignment operator has, and its rank.
proof fn lemma_spelled_precedence(t: Token)
    requires
        operator_text(t) is Some,
        spelled_binding(operator_text(t)->0) is Some,
    ensures
        infix_parser(spec_token_type(t)) is Some,
        precedence_rank((infix_parser(spec_token_type(t))->0).1) == binding_rank(spelled_binding(operator_text(t)->0)->0),
        spelled_binding(operator_text(t)->0)->0 == 1 ==> (infix_parser(spec_token_type(t))->0).0 == InfixParser::Assignment,
        spelled_binding(operator_text(t)->0)->0 > 1 ==> (infix_parser(spec_token_type(t))->0).0 == InfixParser::BinaryOperator,
{
    match t {
        Token::Tilde => {},
        Token::Comma => {},
        Token::Colon => {},
        Token::Semicolon => {},
        Token::Dollar => {},
        Token::QuestionMark => {},
        Token::Backtick => {},
        Token::ParenthesisOpen => {},
        Token::BracketOpen => {},
        Token::BraceOpen => {},
        Token::ParenthesisClose => {},
        Token::BracketClose => {},
        Token::BraceClose => {},
        Token::Bang => {},
        Token::BangEqual => {},
        Token::Period => {},
        Token::PeriodPeriod => {},
        Token::PeriodPeriodPeriod => {},
        Token::Plus => {},
        Token::PlusEqual => {},
        Token::Minus => {},
        Token::MinusEqual => {},
        Token::ForwardArrow => {},
        Token::Star => {},
        Token::StarEqual => {},
        Token::StarStar => {},
        Token::StarStarEqual => {},
        Token::Slash => {},
        Token::SlashEqual => {},
        Token::Percent => {},
        Token::PercentEqual => {},
        Token::Caret => {},
        Token::CaretEqual => {},
        Token::Ampersand => {},
        Token::AmpersandAmpersand => {},
        Token::AmpersandEqual => {},
        Token::Pipe => {},
        Token::PipePipe => {},
        Token::PipeEqual => {},
        Token::Equal => {},
        Token::EqualEqual => {},
        Token::Less => {},
        Token::LessEqual => {},
        Token::LessLess => {},
        Token::LessLessEqual => {},
        Token::Greater => {},
        Token::GreaterEqual => {},
        Token::GreaterGreater => {},
        Token::GreaterGreaterEqual => {},
        _ => {},
    }
}

/// The precedence rank of each binding level.
pub open spec fn binding_rank(l: nat) -> nat {
    if l == 11 { 17 } else if l == 10 { 14 } else if l == 9 { 13 } else if l == 8 { 12 } else if l == 7 { 11 }
    else if l == 6 { 10 } else if l == 5 { 9 } else if l == 4 { 8 } else if l == 3 { 5 } else if l == 2 { 4 }
    else { 1 }
}

/// Binary and assignment operators bind by their spelling: an operator that binds tighter in the
/// order of `spelled_binding` (`**`, then `*` `/` `%`, `+` `-`, shifts, `&`, `^`, `|`, comparisons,
/// `&&`, `||`, assignments) gets a higher precedence from the rule table, and operators at the same
/// level get the same precedence.
pub proof fn law_operator_binding(t1: Token, t2: Token)
    requires
        operator_text(t1) is Some,
        operator_text(t2) is Some,
        spelled_binding(operator_text(t1)->0) is Some,
        spelled_binding(operator_text(t2)->0) is Some,
    ensures
        ({
            let l1 = spelled_binding(operator_text(t1)->0)->0;
            let l2 = spelled_binding(operator_text(t2)->0)->0;
            let q1 = (infix_parser(spec_token_type(t1))->0).1;
            let q2 = (infix_parser(spec_token_type(t2))->0).1;
            &&& infix_parser(spec_token_type(t1)) is Some && infix_parser(spec_token_type(t2)) is Some
            &&& l1 > l2 <==> precedence_rank(q1) > precedence_rank(q2)
            &&& l1 == l2 <==> q1 == q2
        }),
{
    lemma_spelled_precedence(t1);
    lemma_spelled_precedence(t2);
}

} // verus!
