//! GDScript tokens and source positions.
pub mod tokenizer;
pub mod parser;

use vstd::prelude::*;
use crate::variant::Variant;

verus! {

/// The kind of a GDScript token, without its payload.
#[derive(Debug, Clone, Copy, PartialEq, Eq, Hash, Structural)]
pub enum TokenType {
    Empty,
    Annotation,
    Identifier,
    Literal,
    Less,
    LessEqual,
    Greater,
    GreaterEqual,
    EqualEqual,
    BangEqual,
    And,
    Or,
    Not,
    AmpersandAmpersand,
    PipePipe,
    Bang,
    Ampersand,
    Pipe,
    Tilde,
    Caret,
    LessLess,
    GreaterGreater,
    Plus,
    Minus,
    Star,
    StarStar,
    Slash,
    Percent,
    Equal,
    PlusEqual,
    MinusEqual,
    StarEqual,
    StarStarEqual,
    SlashEqual,
    PercentEqual,
    LessLessEqual,
    GreaterGreaterEqual,
    AmpersandEqual,
    PipeEqual,
    CaretEqual,
    If,
    Elif,
    Else,
    For,
    While,
    Break,
    Continue,
    Pass,
    Return,
    Match,
    When,
    As,
    Assert,
    Await,
    Breakpoint,
    Class,
    ClassName,
    Const,
    Enum,
    Extends,
    Func,
    In,
    Is,
    Namespace,
    Preload,
    _Self,
    Signal,
    Static,
    Super,
    Trait,
    Var,
    Void,
    Yield,
    BracketOpen,
    BracketClose,
    BraceOpen,
    BraceClose,
    ParenthesisOpen,
    ParenthesisClose,
    Comma,
    Semicolon,
    Period,
    PeriodPeriod,
    PeriodPeriodPeriod,
    Colon,
    Dollar,
    ForwardArrow,
    Underscore,
    Newline,
    Indent,
    Dedent,
    ConstPi,
    ConstTau,
    ConstInf,
    ConstNan,
    VcsConflictMarker,
    Backtick,
    QuestionMark,
    Error,
    Eof,
    Do,
    Case,
    Switch,
    Slave,
    SlaveSync,
    BuiltInType,
    BuiltInFunc,
    OnReady,
    Tool,
    Export,
    SetGet,
    Remote,
    Sync,
    Master,
    Puppet,
    RemoteSync,
    MasterSync,
    PuppetSync,
    Wildcard,
    Cursor,
    Abstract,
}

/// A GDScript token.
#[derive(Debug, PartialEq, Eq)]
pub enum Token {
    Empty,
    Annotation(String),
    Identifier(String),
    Literal(Variant),
    Less,
    LessEqual,
    Greater,
    GreaterEqual,
    EqualEqual,
    BangEqual,
    And,
    Or,
    Not,
    AmpersandAmpersand,
    PipePipe,
    Bang,
    Ampersand,
    Pipe,
    Tilde,
    Caret,
    LessLess,
    GreaterGreater,
    Plus,
    Minus,
    Star,
    StarStar,
    Slash,
    Percent,
    Equal,
    PlusEqual,
    MinusEqual,
    StarEqual,
    StarStarEqual,
    SlashEqual,
    PercentEqual,
    LessLessEqual,
    GreaterGreaterEqual,
    AmpersandEqual,
    PipeEqual,
    CaretEqual,
    If,
    Elif,
    Else,
    For,
    While,
    Break,
    Continue,
    Pass,
    Return,
    Match,
    When,
    As,
    Assert,
    Await,
    Breakpoint,
    Class,
    ClassName,
    Const,
    Enum,
    Extends,
    Func,
    In,
    Is,
    Namespace,
    Preload,
    _Self,
    Signal,
    Static,
    Super,
    Trait,
    Var,
    Void,
    Yield,
    BracketOpen,
    BracketClose,
    BraceOpen,
    BraceClose,
    ParenthesisOpen,
    ParenthesisClose,
    Comma,
    Semicolon,
    Period,
    PeriodPeriod,
    PeriodPeriodPeriod,
    Colon,
    Dollar,
    ForwardArrow,
    Underscore,
    Newline {
        /// Whether this newline ends a line continued with a backslash.
        continuation: bool,
    },
    Indent,
    Dedent,
    ConstPi,
    ConstTau,
    ConstInf,
    ConstNan,
    VcsConflictMarker,
    Backtick,
    QuestionMark,
    Error(Variant),
    Eof,
    Do,
    Case,
    Switch,
    Slave,
    SlaveSync,
    BuiltInType,
    BuiltInFunc,
    OnReady,
    Tool,
    Export,
    SetGet,
    Remote,
    Sync,
    Master,
    Puppet,
    RemoteSync,
    MasterSync,
    PuppetSync,
    Wildcard,
    Cursor,
    Abstract,
}

/// The kind of token `t` is.
pub open spec fn spec_token_type(t: Token) -> TokenType {
    match t {
        Token::Empty => TokenType::Empty,
        Token::Annotation(_) => TokenType::Annotation,
        Token::Identifier(_) => TokenType::Identifier,
        Token::Literal(_) => TokenType::Literal,
        Token::Less => TokenType::Less,
        Token::LessEqual => TokenType::LessEqual,
        Token::Greater => TokenType::Greater,
        Token::GreaterEqual => TokenType::GreaterEqual,
        Token::EqualEqual => TokenType::EqualEqual,
        Token::BangEqual => TokenType::BangEqual,
        Token::And => TokenType::And,
        Token::Or => TokenType::Or,
        Token::Not => TokenType::Not,
        Token::AmpersandAmpersand => TokenType::AmpersandAmpersand,
        Token::PipePipe => TokenType::PipePipe,
        Token::Bang => TokenType::Bang,
        Token::Ampersand => TokenType::Ampersand,
        Token::Pipe => TokenType::Pipe,
        Token::Tilde => TokenType::Tilde,
        Token::Caret => TokenType::Caret,
        Token::LessLess => TokenType::LessLess,
        Token::GreaterGreater => TokenType::GreaterGreater,
        Token::Plus => TokenType::Plus,
        Token::Minus => TokenType::Minus,
        Token::Star => TokenType::Star,
        Token::StarStar => TokenType::StarStar,
        Token::Slash => TokenType::Slash,
        Token::Percent => TokenType::Percent,
        Token::Equal => TokenType::Equal,
        Token::PlusEqual => TokenType::PlusEqual,
        Token::MinusEqual => TokenType::MinusEqual,
        Token::StarEqual => TokenType::StarEqual,
        Token::StarStarEqual => TokenType::StarStarEqual,
        Token::SlashEqual => TokenType::SlashEqual,
        Token::PercentEqual => TokenType::PercentEqual,
        Token::LessLessEqual => TokenType::LessLessEqual,
        Token::GreaterGreaterEqual => TokenType::GreaterGreaterEqual,
        Token::AmpersandEqual => TokenType::AmpersandEqual,
        Token::PipeEqual => TokenType::PipeEqual,
        Token::CaretEqual => TokenType::CaretEqual,
        Token::If => TokenType::If,
        Token::Elif => TokenType::Elif,
        Token::Else => TokenType::Else,
        Token::For => TokenType::For,
        Token::While => TokenType::While,
        Token::Break => TokenType::Break,
        Token::Continue => TokenType::Continue,
        Token::Pass => TokenType::Pass,
        Token::Return => TokenType::Return,
        Token::Match => TokenType::Match,
        Token::When => TokenType::When,
        Token::As => TokenType::As,
        Token::Assert => TokenType::Assert,
        Token::Await => TokenType::Await,
        Token::Breakpoint => TokenType::Breakpoint,
        Token::Class => TokenType::Class,
        Token::ClassName => TokenType::ClassName,
        Token::Const => TokenType::Const,
        Token::Enum => TokenType::Enum,
        Token::Extends => TokenType::Extends,
        Token::Func => TokenType::Func,
        Token::In => TokenType::In,
        Token::Is => TokenType::Is,
        Token::Namespace => TokenType::Namespace,
        Token::Preload => TokenType::Preload,
        Token::_Self => TokenType::_Self,
        Token::Signal => TokenType::Signal,
        Token::Static => TokenType::Static,
        Token::Super => TokenType::Super,
        Token::Trait => TokenType::Trait,
        Token::Var => TokenType::Var,
        Token::Void => TokenType::Void,
        Token::Yield => TokenType::Yield,
        Token::BracketOpen => TokenType::BracketOpen,
        Token::BracketClose => TokenType::BracketClose,
        Token::BraceOpen => TokenType::BraceOpen,
        Token::BraceClose => TokenType::BraceClose,
        Token::ParenthesisOpen => TokenType::ParenthesisOpen,
        Token::ParenthesisClose => TokenType::ParenthesisClose,
        Token::Comma => TokenType::Comma,
        Token::Semicolon => TokenType::Semicolon,
        Token::Period => TokenType::Period,
        Token::PeriodPeriod => TokenType::PeriodPeriod,
        Token::PeriodPeriodPeriod => TokenType::PeriodPeriodPeriod,
        Token::Colon => TokenType::Colon,
        Token::Dollar => TokenType::Dollar,
        Token::ForwardArrow => TokenType::ForwardArrow,
        Token::Underscore => TokenType::Underscore,
        Token::Newline { .. } => TokenType::Newline,
        Token::Indent => TokenType::Indent,
        Token::Dedent => TokenType::Dedent,
        Token::ConstPi => TokenType::ConstPi,
        Token::ConstTau => TokenType::ConstTau,
        Token::ConstInf => TokenType::ConstInf,
        Token::ConstNan => TokenType::ConstNan,
        Token::VcsConflictMarker => TokenType::VcsConflictMarker,
        Token::Backtick => TokenType::Backtick,
        Token::QuestionMark => TokenType::QuestionMark,
        Token::Error(_) => TokenType::Error,
        Token::Eof => TokenType::Eof,
        Token::Do => TokenType::Do,
        Token::Case => TokenType::Case,
        Token::Switch => TokenType::Switch,
        Token::Slave => TokenType::Slave,
        Token::SlaveSync => TokenType::SlaveSync,
        Token::BuiltInType => TokenType::BuiltInType,
        Token::BuiltInFunc => TokenType::BuiltInFunc,
        Token::OnReady => TokenType::OnReady,
        Token::Tool => TokenType::Tool,
        Token::Export => TokenType::Export,
        Token::SetGet => TokenType::SetGet,
        Token::Remote => TokenType::Remote,
        Token::Sync => TokenType::Sync,
        Token::Master => TokenType::Master,
        Token::Puppet => TokenType::Puppet,
        Token::RemoteSync => TokenType::RemoteSync,
        Token::MasterSync => TokenType::MasterSync,
        Token::PuppetSync => TokenType::PuppetSync,
        Token::Wildcard => TokenType::Wildcard,
        Token::Cursor => TokenType::Cursor,
        Token::Abstract => TokenType::Abstract,
    }
}

/// The display name Godot uses for the kind of token `t`.
pub open spec fn spec_token_name(t: Token) -> Seq<char> {
    match t {
        Token::Empty => "Empty"@,
        Token::Annotation(_) => "Annotation"@,
        Token::Identifier(_) => "Identifier"@,
        Token::Literal(_) => "Literal"@,
        Token::Less => "<"@,
        Token::LessEqual => "<="@,
        Token::Greater => ">"@,
        Token::GreaterEqual => ">="@,
        Token::EqualEqual => "=="@,
        Token::BangEqual => "!="@,
        Token::And => "and"@,
        Token::Or => "or"@,
        Token::Not => "not"@,
        Token::AmpersandAmpersand => "&&"@,
        Token::PipePipe => "||"@,
        Token::Bang => "!"@,
        Token::Ampersand => "&"@,
        Token::Pipe => "|"@,
        Token::Tilde => "~"@,
        Token::Caret => "^"@,
        Token::LessLess => "<<"@,
        Token::GreaterGreater => ">>"@,
        Token::Plus => "+"@,
        Token::Minus => "-"@,
        Token::Star => "*"@,
        Token::StarStar => "**"@,
        Token::Slash => "/"@,
        Token::Percent => "%"@,
        Token::Equal => "="@,
        Token::PlusEqual => "+="@,
        Token::MinusEqual => "-="@,
        Token::StarEqual => "*="@,
        Token::StarStarEqual => "**="@,
        Token::SlashEqual => "/="@,
        Token::PercentEqual => "%="@,
        Token::LessLessEqual => "<<="@,
        Token::GreaterGreaterEqual => ">>="@,
        Token::AmpersandEqual => "&="@,
        Token::PipeEqual => "|="@,
        Token::CaretEqual => "^="@,
        Token::If => "if"@,
        Token::Elif => "elif"@,
        Token::Else => "else"@,
        Token::For => "for"@,
        Token::While => "while"@,
        Token::Break => "break"@,
        Token::Continue => "continue"@,
        Token::Pass => "pass"@,
        Token::Return => "return"@,
        Token::Match => "match"@,
        Token::When => "when"@,
        Token::As => "as"@,
        Token::Assert => "assert"@,
        Token::Await => "await"@,
        Token::Breakpoint => "breakpoint"@,
        Token::Class => "class"@,
        Token::ClassName => "class_name"@,
        Token::Const => "const"@,
        Token::Enum => "enum"@,
        Token::Extends => "extends"@,
        Token::Func => "func"@,
        Token::In => "in"@,
        Token::Is => "is"@,
        Token::Namespace => "namespace"@,
        Token::Preload => "preload"@,
        Token::_Self => "self"@,
        Token::Signal => "signal"@,
        Token::Static => "static"@,
        Token::Super => "super"@,
        Token::Trait => "trait"@,
        Token::Var => "var"@,
        Token::Void => "void"@,
        Token::Yield => "yield"@,
        Token::BracketOpen => "["@,
        Token::BracketClose => "]"@,
        Token::BraceOpen => "{"@,
        Token::BraceClose => "}"@,
        Token::ParenthesisOpen => "("@,
        Token::ParenthesisClose => ")"@,
        Token::Comma => ","@,
        Token::Semicolon => ";"@,
        Token::Period => "."@,
        Token::PeriodPeriod => ".."@,
        Token::PeriodPeriodPeriod => "..."@,
        Token::Colon => ":"@,
        Token::Dollar => "$"@,
        Token::ForwardArrow => "->"@,
        Token::Underscore => "_"@,
        Token::Newline { .. } => "Newline"@,
        Token::Indent => "Indent"@,
        Token::Dedent => "Dedent"@,
        Token::ConstPi => "PI"@,
        Token::ConstTau => "TAU"@,
        Token::ConstInf => "INF"@,
        Token::ConstNan => "NaN"@,
        Token::VcsConflictMarker => "VCS conflict marker"@,
        Token::Backtick => "`"@,
        Token::QuestionMark => "?"@,
        Token::Error(_) => "Error"@,
        Token::Eof => "End of file"@,
        Token::Do => "do"@,
        Token::Case => "switch (reserved)"@,
        Token::Switch => "case (reserved)"@,
        Token::Slave => "slave"@,
        Token::SlaveSync => "slavesync"@,
        Token::BuiltInType => "Built-In Type"@,
        Token::BuiltInFunc => "Built-in Func"@,
        Token::OnReady => "onready"@,
        Token::Tool => "tool"@,
        Token::Export => "export"@,
        Token::SetGet => "setget"@,
        Token::Remote => "rpc"@,
        Token::Sync => "sync"@,
        Token::Master => "master"@,
        Token::Puppet => "puppet"@,
        Token::RemoteSync => "remotesync"@,
        Token::MasterSync => "mastersync"@,
        Token::PuppetSync => "puppetsync"@,
        Token::Wildcard => "_"@,
        Token::Cursor => "Cursor"@,
        Token::Abstract => "abstract"@,
    }
}

/// Tokens that may come before a binary operator.
pub open spec fn spec_can_precede_bin_op(t: Token) -> bool {
    match t {
        Token::Identifier(_)
            | Token::Literal(_)
            | Token::_Self
            | Token::BracketClose
            | Token::BraceClose
            | Token::ParenthesisClose
            | Token::ConstPi
            | Token::ConstTau
            | Token::ConstInf
            | Token::ConstNan => true,
        _ => false,
    }
}

/// Tokens accepted where an identifier is expected.
pub open spec fn spec_is_identifier(t: Token) -> bool {
    match t {
        Token::Identifier(_)
            | Token::Match
            | Token::When
            | Token::ConstPi
            | Token::ConstInf
            | Token::ConstTau
            | Token::ConstNan => true,
        _ => false,
    }
}

/// Tokens accepted as node names after `$` (some keywords included).
pub open spec fn spec_is_node_name(t: Token) -> bool {
    match t {
        Token::Identifier(_)
            | Token::And
            | Token::As
            | Token::Assert
            | Token::Await
            | Token::Break
            | Token::Breakpoint
            | Token::ClassName
            | Token::Class
            | Token::Const
            | Token::ConstPi
            | Token::ConstInf
            | Token::ConstNan
            | Token::ConstTau
            | Token::Continue
            | Token::Elif
            | Token::Else
            | Token::Enum
            | Token::Extends
            | Token::For
            | Token::Func
            | Token::If
            | Token::In
            | Token::Is
            | Token::Match
            | Token::Namespace
            | Token::Not
            | Token::Or
            | Token::Pass
            | Token::Preload
            | Token::Return
            | Token::_Self
            | Token::Signal
            | Token::Static
            | Token::Super
            | Token::Trait
            | Token::Underscore
            | Token::Var
            | Token::Void
            | Token::While
            | Token::When => true,
        _ => false,
    }
}

/// The text `get_identifier` returns for a token.
pub open spec fn spec_get_identifier(t: Token) -> Seq<char> {
    match t {
        Token::Identifier(inner) => inner@,
        Token::ConstNan => "NAN"@,
        _ => spec_token_name(t),
    }
}

impl Clone for Token {
    fn clone(&self) -> (r: Token)
        ensures
            r == *self,
    {
        self.duplicate()
    }
}

impl Token {
    /// The kind of this token.
    pub fn typ(&self) -> (r: TokenType)
        ensures
            r == spec_token_type(*self),
    {
        match self {
            Token::Empty => TokenType::Empty,
            Token::Annotation(_) => TokenType::Annotation,
            Token::Identifier(_) => TokenType::Identifier,
            Token::Literal(_) => TokenType::Literal,
            Token::Less => TokenType::Less,
            Token::LessEqual => TokenType::LessEqual,
            Token::Greater => TokenType::Greater,
            Token::GreaterEqual => TokenType::GreaterEqual,
            Token::EqualEqual => TokenType::EqualEqual,
            Token::BangEqual => TokenType::BangEqual,
            Token::And => TokenType::And,
            Token::Or => TokenType::Or,
            Token::Not => TokenType::Not,
            Token::AmpersandAmpersand => TokenType::AmpersandAmpersand,
            Token::PipePipe => TokenType::PipePipe,
            Token::Bang => TokenType::Bang,
            Token::Ampersand => TokenType::Ampersand,
            Token::Pipe => TokenType::Pipe,
            Token::Tilde => TokenType::Tilde,
            Token::Caret => TokenType::Caret,
            Token::LessLess => TokenType::LessLess,
            Token::GreaterGreater => TokenType::GreaterGreater,
            Token::Plus => TokenType::Plus,
            Token::Minus => TokenType::Minus,
            Token::Star => TokenType::Star,
            Token::StarStar => TokenType::StarStar,
            Token::Slash => TokenType::Slash,
            Token::Percent => TokenType::Percent,
            Token::Equal => TokenType::Equal,
            Token::PlusEqual => TokenType::PlusEqual,
            Token::MinusEqual => TokenType::MinusEqual,
            Token::StarEqual => TokenType::StarEqual,
            Token::StarStarEqual => TokenType::StarStarEqual,
            Token::SlashEqual => TokenType::SlashEqual,
            Token::PercentEqual => TokenType::PercentEqual,
            Token::LessLessEqual => TokenType::LessLessEqual,
            Token::GreaterGreaterEqual => TokenType::GreaterGreaterEqual,
            Token::AmpersandEqual => TokenType::AmpersandEqual,
            Token::PipeEqual => TokenType::PipeEqual,
            Token::CaretEqual => TokenType::CaretEqual,
            Token::If => TokenType::If,
            Token::Elif => TokenType::Elif,
            Token::Else => TokenType::Else,
            Token::For => TokenType::For,
            Token::While => TokenType::While,
            Token::Break => TokenType::Break,
            Token::Continue => TokenType::Continue,
            Token::Pass => TokenType::Pass,
            Token::Return => TokenType::Return,
            Token::Match => TokenType::Match,
            Token::When => TokenType::When,
            Token::As => TokenType::As,
            Token::Assert => TokenType::Assert,
            Token::Await => TokenType::Await,
            Token::Breakpoint => TokenType::Breakpoint,
            Token::Class => TokenType::Class,
            Token::ClassName => TokenType::ClassName,
            Token::Const => TokenType::Const,
            Token::Enum => TokenType::Enum,
            Token::Extends => TokenType::Extends,
            Token::Func => TokenType::Func,
            Token::In => TokenType::In,
            Token::Is => TokenType::Is,
            Token::Namespace => TokenType::Namespace,
            Token::Preload => TokenType::Preload,
            Token::_Self => TokenType::_Self,
            Token::Signal => TokenType::Signal,
            Token::Static => TokenType::Static,
            Token::Super => TokenType::Super,
            Token::Trait => TokenType::Trait,
            Token::Var => TokenType::Var,
            Token::Void => TokenType::Void,
            Token::Yield => TokenType::Yield,
            Token::BracketOpen => TokenType::BracketOpen,
            Token::BracketClose => TokenType::BracketClose,
            Token::BraceOpen => TokenType::BraceOpen,
            Token::BraceClose => TokenType::BraceClose,
            Token::ParenthesisOpen => TokenType::ParenthesisOpen,
            Token::ParenthesisClose => TokenType::ParenthesisClose,
            Token::Comma => TokenType::Comma,
            Token::Semicolon => TokenType::Semicolon,
            Token::Period => TokenType::Period,
            Token::PeriodPeriod => TokenType::PeriodPeriod,
            Token::PeriodPeriodPeriod => TokenType::PeriodPeriodPeriod,
            Token::Colon => TokenType::Colon,
            Token::Dollar => TokenType::Dollar,
            Token::ForwardArrow => TokenType::ForwardArrow,
            Token::Underscore => TokenType::Underscore,
            Token::Newline { .. } => TokenType::Newline,
            Token::Indent => TokenType::Indent,
            Token::Dedent => TokenType::Dedent,
            Token::ConstPi => TokenType::ConstPi,
            Token::ConstTau => TokenType::ConstTau,
            Token::ConstInf => TokenType::ConstInf,
            Token::ConstNan => TokenType::ConstNan,
            Token::VcsConflictMarker => TokenType::VcsConflictMarker,
            Token::Backtick => TokenType::Backtick,
            Token::QuestionMark => TokenType::QuestionMark,
            Token::Error(_) => TokenType::Error,
            Token::Eof => TokenType::Eof,
            Token::Do => TokenType::Do,
            Token::Case => TokenType::Case,
            Token::Switch => TokenType::Switch,
            Token::Slave => TokenType::Slave,
            Token::SlaveSync => TokenType::SlaveSync,
            Token::BuiltInType => TokenType::BuiltInType,
            Token::BuiltInFunc => TokenType::BuiltInFunc,
            Token::OnReady => TokenType::OnReady,
            Token::Tool => TokenType::Tool,
            Token::Export => TokenType::Export,
            Token::SetGet => TokenType::SetGet,
            Token::Remote => TokenType::Remote,
            Token::Sync => TokenType::Sync,
            Token::Master => TokenType::Master,
            Token::Puppet => TokenType::Puppet,
            Token::RemoteSync => TokenType::RemoteSync,
            Token::MasterSync => TokenType::MasterSync,
            Token::PuppetSync => TokenType::PuppetSync,
            Token::Wildcard => TokenType::Wildcard,
            Token::Cursor => TokenType::Cursor,
            Token::Abstract => TokenType::Abstract,
        }
    }

    /// Whether this token can come before a binary operator.
    pub fn can_precede_bin_op(&self) -> (r: bool)
        ensures
            r == spec_can_precede_bin_op(*self),
    {
        match self {
            Token::Identifier(_)
                | Token::Literal(_)
                | Token::_Self
                | Token::BracketClose
                | Token::BraceClose
                | Token::ParenthesisClose
                | Token::ConstPi
                | Token::ConstTau
                | Token::ConstInf
                | Token::ConstNan => true,
            _ => false,
        }
    }

    /// Whether this token is accepted as an identifier.
    pub fn is_identifier(&self) -> (r: bool)
        ensures
            r == spec_is_identifier(*self),
    {
        match self {
            Token::Identifier(_)
                | Token::Match
                | Token::When
                | Token::ConstPi
                | Token::ConstInf
                | Token::ConstTau
                | Token::ConstNan => true,
            _ => false,
        }
    }

    /// Whether this token is accepted as a node name after `$`.
    pub fn is_node_name(&self) -> (r: bool)
        ensures
            r == spec_is_node_name(*self),
    {
        match self {
            Token::Identifier(_)
                | Token::And
                | Token::As
                | Token::Assert
                | Token::Await
                | Token::Break
                | Token::Breakpoint
                | Token::ClassName
                | Token::Class
                | Token::Const
                | Token::ConstPi
                | Token::ConstInf
                | Token::ConstNan
                | Token::ConstTau
                | Token::Continue
                | Token::Elif
                | Token::Else
                | Token::Enum
                | Token::Extends
                | Token::For
                | Token::Func
                | Token::If
                | Token::In
                | Token::Is
                | Token::Match
                | Token::Namespace
                | Token::Not
                | Token::Or
                | Token::Pass
                | Token::Preload
                | Token::Return
                | Token::_Self
                | Token::Signal
                | Token::Static
                | Token::Super
                | Token::Trait
                | Token::Underscore
                | Token::Var
                | Token::Void
                | Token::While
                | Token::When => true,
            _ => false,
        }
    }

    /// The identifier text of this token: the name of an identifier, `NAN` for the NaN constant,
    /// otherwise the token's display name.
    pub fn get_identifier(&self) -> (r: &str)
        ensures
            r@ == spec_get_identifier(*self),
    {
        match self {
            Token::Identifier(inner) => inner.as_str(),
            Token::ConstNan => "NAN",
            other => other.token_name(),
        }
    }

    /// The display name of this token's kind.
    pub fn token_name(&self) -> (r: &'static str)
        ensures
            r@ == spec_token_name(*self),
    {
        match self {
            Token::Empty => "Empty",
            Token::Annotation(_) => "Annotation",
            Token::Identifier(_) => "Identifier",
            Token::Literal(_) => "Literal",
            Token::Less => "<",
            Token::LessEqual => "<=",
            Token::Greater => ">",
            Token::GreaterEqual => ">=",
            Token::EqualEqual => "==",
            Token::BangEqual => "!=",
            Token::And => "and",
            Token::Or => "or",
            Token::Not => "not",
            Token::AmpersandAmpersand => "&&",
            Token::PipePipe => "||",
            Token::Bang => "!",
            Token::Ampersand => "&",
            Token::Pipe => "|",
            Token::Tilde => "~",
            Token::Caret => "^",
            Token::LessLess => "<<",
            Token::GreaterGreater => ">>",
            Token::Plus => "+",
            Token::Minus => "-",
            Token::Star => "*",
            Token::StarStar => "**",
            Token::Slash => "/",
            Token::Percent => "%",
            Token::Equal => "=",
            Token::PlusEqual => "+=",
            Token::MinusEqual => "-=",
            Token::StarEqual => "*=",
            Token::StarStarEqual => "**=",
            Token::SlashEqual => "/=",
            Token::PercentEqual => "%=",
            Token::LessLessEqual => "<<=",
            Token::GreaterGreaterEqual => ">>=",
            Token::AmpersandEqual => "&=",
            Token::PipeEqual => "|=",
            Token::CaretEqual => "^=",
            Token::If => "if",
            Token::Elif => "elif",
            Token::Else => "else",
            Token::For => "for",
            Token::While => "while",
            Token::Break => "break",
            Token::Continue => "continue",
            Token::Pass => "pass",
            Token::Return => "return",
            Token::Match => "match",
            Token::When => "when",
            Token::As => "as",
            Token::Assert => "assert",
            Token::Await => "await",
            Token::Breakpoint => "breakpoint",
            Token::Class => "class",
            Token::ClassName => "class_name",
            Token::Const => "const",
            Token::Enum => "enum",
            Token::Extends => "extends",
            Token::Func => "func",
            Token::In => "in",
            Token::Is => "is",
            Token::Namespace => "namespace",
            Token::Preload => "preload",
            Token::_Self => "self",
            Token::Signal => "signal",
            Token::Static => "static",
            Token::Super => "super",
            Token::Trait => "trait",
            Token::Var => "var",
            Token::Void => "void",
            Token::Yield => "yield",
            Token::BracketOpen => "[",
            Token::BracketClose => "]",
            Token::BraceOpen => "{",
            Token::BraceClose => "}",
            Token::ParenthesisOpen => "(",
            Token::ParenthesisClose => ")",
            Token::Comma => ",",
            Token::Semicolon => ";",
            Token::Period => ".",
            Token::PeriodPeriod => "..",
            Token::PeriodPeriodPeriod => "...",
            Token::Colon => ":",
            Token::Dollar => "$",
            Token::ForwardArrow => "->",
            Token::Underscore => "_",
            Token::Newline { .. } => "Newline",
            Token::Indent => "Indent",
            Token::Dedent => "Dedent",
            Token::ConstPi => "PI",
            Token::ConstTau => "TAU",
            Token::ConstInf => "INF",
            Token::ConstNan => "NaN",
            Token::VcsConflictMarker => "VCS conflict marker",
            Token::Backtick => "`",
            Token::QuestionMark => "?",
            Token::Error(_) => "Error",
            Token::Eof => "End of file",
            Token::Do => "do",
            Token::Case => "switch (reserved)",
            Token::Switch => "case (reserved)",
            Token::Slave => "slave",
            Token::SlaveSync => "slavesync",
            Token::BuiltInType => "Built-In Type",
            Token::BuiltInFunc => "Built-in Func",
            Token::OnReady => "onready",
            Token::Tool => "tool",
            Token::Export => "export",
            Token::SetGet => "setget",
            Token::Remote => "rpc",
            Token::Sync => "sync",
            Token::Master => "master",
            Token::Puppet => "puppet",
            Token::RemoteSync => "remotesync",
            Token::MasterSync => "mastersync",
            Token::PuppetSync => "puppetsync",
            Token::Wildcard => "_",
            Token::Cursor => "Cursor",
            Token::Abstract => "abstract",
        }
    }

    /// An identical copy of this token.
    pub fn duplicate(&self) -> (r: Token)
        ensures
            r == *self,
    {
        match self {
            Token::Empty => Token::Empty,
            Token::Annotation(s) => Token::Annotation(s.clone()),
            Token::Identifier(s) => Token::Identifier(s.clone()),
            Token::Literal(v) => Token::Literal(v.duplicate()),
            Token::Less => Token::Less,
            Token::LessEqual => Token::LessEqual,
            Token::Greater => Token::Greater,
            Token::GreaterEqual => Token::GreaterEqual,
            Token::EqualEqual => Token::EqualEqual,
            Token::BangEqual => Token::BangEqual,
            Token::And => Token::And,
            Token::Or => Token::Or,
            Token::Not => Token::Not,
            Token::AmpersandAmpersand => Token::AmpersandAmpersand,
            Token::PipePipe => Token::PipePipe,
            Token::Bang => Token::Bang,
            Token::Ampersand => Token::Ampersand,
            Token::Pipe => Token::Pipe,
            Token::Tilde => Token::Tilde,
            Token::Caret => Token::Caret,
            Token::LessLess => Token::LessLess,
            Token::GreaterGreater => Token::GreaterGreater,
            Token::Plus => Token::Plus,
            Token::Minus => Token::Minus,
            Token::Star => Token::Star,
            Token::StarStar => Token::StarStar,
            Token::Slash => Token::Slash,
            Token::Percent => Token::Percent,
            Token::Equal => Token::Equal,
            Token::PlusEqual => Token::PlusEqual,
            Token::MinusEqual => Token::MinusEqual,
            Token::StarEqual => Token::StarEqual,
            Token::StarStarEqual => Token::StarStarEqual,
            Token::SlashEqual => Token::SlashEqual,
            Token::PercentEqual => Token::PercentEqual,
            Token::LessLessEqual => Token::LessLessEqual,
            Token::GreaterGreaterEqual => Token::GreaterGreaterEqual,
            Token::AmpersandEqual => Token::AmpersandEqual,
            Token::PipeEqual => Token::PipeEqual,
            Token::CaretEqual => Token::CaretEqual,
            Token::If => Token::If,
            Token::Elif => Token::Elif,
            Token::Else => Token::Else,
            Token::For => Token::For,
            Token::While => Token::While,
            Token::Break => Token::Break,
            Token::Continue => Token::Continue,
            Token::Pass => Token::Pass,
            Token::Return => Token::Return,
            Token::Match => Token::Match,
            Token::When => Token::When,
            Token::As => Token::As,
            Token::Assert => Token::Assert,
            Token::Await => Token::Await,
            Token::Breakpoint => Token::Breakpoint,
            Token::Class => Token::Class,
            Token::ClassName => Token::ClassName,
            Token::Const => Token::Const,
            Token::Enum => Token::Enum,
            Token::Extends => Token::Extends,
            Token::Func => Token::Func,
            Token::In => Token::In,
            Token::Is => Token::Is,
            Token::Namespace => Token::Namespace,
            Token::Preload => Token::Preload,
            Token::_Self => Token::_Self,
            Token::Signal => Token::Signal,
            Token::Static => Token::Static,
            Token::Super => Token::Super,
            Token::Trait => Token::Trait,
            Token::Var => Token::Var,
            Token::Void => Token::Void,
            Token::Yield => Token::Yield,
            Token::BracketOpen => Token::BracketOpen,
            Token::BracketClose => Token::BracketClose,
            Token::BraceOpen => Token::BraceOpen,
            Token::BraceClose => Token::BraceClose,
            Token::ParenthesisOpen => Token::ParenthesisOpen,
            Token::ParenthesisClose => Token::ParenthesisClose,
            Token::Comma => Token::Comma,
            Token::Semicolon => Token::Semicolon,
            Token::Period => Token::Period,
            Token::PeriodPeriod => Token::PeriodPeriod,
            Token::PeriodPeriodPeriod => Token::PeriodPeriodPeriod,
            Token::Colon => Token::Colon,
            Token::Dollar => Token::Dollar,
            Token::ForwardArrow => Token::ForwardArrow,
            Token::Underscore => Token::Underscore,
            Token::Newline { continuation } => Token::Newline { continuation: *continuation },
            Token::Indent => Token::Indent,
            Token::Dedent => Token::Dedent,
            Token::ConstPi => Token::ConstPi,
            Token::ConstTau => Token::ConstTau,
            Token::ConstInf => Token::ConstInf,
            Token::ConstNan => Token::ConstNan,
            Token::VcsConflictMarker => Token::VcsConflictMarker,
            Token::Backtick => Token::Backtick,
            Token::QuestionMark => Token::QuestionMark,
            Token::Error(v) => Token::Error(v.duplicate()),
            Token::Eof => Token::Eof,
            Token::Do => Token::Do,
            Token::Case => Token::Case,
            Token::Switch => Token::Switch,
            Token::Slave => Token::Slave,
            Token::SlaveSync => Token::SlaveSync,
            Token::BuiltInType => Token::BuiltInType,
            Token::BuiltInFunc => Token::BuiltInFunc,
            Token::OnReady => Token::OnReady,
            Token::Tool => Token::Tool,
            Token::Export => Token::Export,
            Token::SetGet => Token::SetGet,
            Token::Remote => Token::Remote,
            Token::Sync => Token::Sync,
            Token::Master => Token::Master,
            Token::Puppet => Token::Puppet,
            Token::RemoteSync => Token::RemoteSync,
            Token::MasterSync => Token::MasterSync,
            Token::PuppetSync => Token::PuppetSync,
            Token::Wildcard => Token::Wildcard,
            Token::Cursor => Token::Cursor,
            Token::Abstract => Token::Abstract,
        }
    }
}

/// Two tokens have the same kind exactly when they are the same variant: equal tokens, or two
/// annotations, identifiers, literals, newlines or errors whatever their payloads.
#[verifier::spinoff_prover]
#[verifier::rlimit(100)]
pub proof fn law_token_type_is_variant(t1: Token, t2: Token)
    ensures
        spec_token_type(t1) == spec_token_type(t2) <==> (t1 == t2
            || (t1 is Annotation && t2 is Annotation)
            || (t1 is Identifier && t2 is Identifier)
            || (t1 is Literal && t2 is Literal)
            || (t1 is Newline && t2 is Newline)
            || (t1 is Error && t2 is Error)),
{
}

/// A position in a source file.
#[derive(Debug, Default, Clone, Copy, PartialEq, Eq, Structural)]
pub struct Position {
    pub line: usize,
    /// Column, counted in characters.
    pub column: usize,
}

/// A range of source positions.
#[derive(Debug, Clone, Copy)]
pub struct Span {
    pub start: Position,
    pub end: Position,
}

impl Span {
    /// The span between two positions.
    pub fn new(start: Position, end: Position) -> (r: Span)
        ensures
            r.start == start,
            r.end == end,
    {
        Span { start, end }
    }

    /// The span at line 0, column 0.
    pub fn zero() -> (r: Span)
        ensures
            r.start == (Position { line: 0, column: 0 }),
            r.end == (Position { line: 0, column: 0 }),
    {
        let position = Position { line: 0, column: 0 };
        Span { start: position, end: position }
    }
}

/// A value together with its source span.
pub type Spanned<T> = (T, Span);

} // verus!
