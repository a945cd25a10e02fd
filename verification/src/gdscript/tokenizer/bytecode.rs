//! The compiled (binary) GDScript token format.
use vstd::prelude::*;
use std::collections::HashMap;
use crate::Error;
use crate::engine_build::GDScriptBuild;
use crate::gdscript::{Position, Span, Spanned, Token, TokenType, spec_token_type};
use crate::marshalling::{ReadableMarshalBuffer, u32_of_le};
use crate::private::Sealed;
use crate::gdscript::tokenizer::Tokenizer;
use crate::variant::Variant;
use crate::util::push_char;
use crate::gdscript::tokenizer::text::{innermost_indent, pop_wider, pending_change};

verus! {

broadcast use vstd::std_specs::hash::group_hash_axioms;

/// Bit set in the first byte of a token stored in four bytes.
pub const TOKEN_BYTE_MASK: u8 = 0x80;

/// Number of low bits of a token word that hold the token kind's index.
pub const TOKEN_BITS: u32 = 8;

/// Mask of the token kind's index in a token word.
pub const TOKEN_MASK: u32 = 0x7f;

/// Key with which identifier characters are XOR'd in compiled scripts.
pub const INEXPLICABLE_XOR_KEY: u32 = 0xb6b6b6b6;

/// FOURCC magic of compiled GDScript (`GDSC`, little-endian).
pub const MAGIC: u32 = 0x43534447;

/// How the body of a compiled script is stored.
#[derive(Debug, Copy, Clone, Eq, PartialEq, Structural, Hash)]
pub enum CompressMode {
    /// Stored as is.
    Uncompressed,
    /// Compressed with Zstandard.
    Zstd,
}

/// The token without data that has kind `t`, or `None` for the kinds that carry data or describe
/// line structure (annotations, identifiers, literals, errors, newlines).
pub open spec fn spec_unit_token(t: TokenType) -> Option<Token> {
    match t {
        TokenType::Empty => Some(Token::Empty),
        TokenType::Less => Some(Token::Less),
        TokenType::LessEqual => Some(Token::LessEqual),
        TokenType::Greater => Some(Token::Greater),
        TokenType::GreaterEqual => Some(Token::GreaterEqual),
        TokenType::EqualEqual => Some(Token::EqualEqual),
        TokenType::BangEqual => Some(Token::BangEqual),
        TokenType::And => Some(Token::And),
        TokenType::Or => Some(Token::Or),
        TokenType::Not => Some(Token::Not),
        TokenType::AmpersandAmpersand => Some(Token::AmpersandAmpersand),
        TokenType::PipePipe => Some(Token::PipePipe),
        TokenType::Bang => Some(Token::Bang),
        TokenType::Ampersand => Some(Token::Ampersand),
        TokenType::Pipe => Some(Token::Pipe),
        TokenType::Tilde => Some(Token::Tilde),
        TokenType::Caret => Some(Token::Caret),
        TokenType::LessLess => Some(Token::LessLess),
        TokenType::GreaterGreater => Some(Token::GreaterGreater),
        TokenType::Plus => Some(Token::Plus),
        TokenType::Minus => Some(Token::Minus),
        TokenType::Star => Some(Token::Star),
        TokenType::StarStar => Some(Token::StarStar),
        TokenType::Slash => Some(Token::Slash),
        TokenType::Percent => Some(Token::Percent),
        TokenType::Equal => Some(Token::Equal),
        TokenType::PlusEqual => Some(Token::PlusEqual),
        TokenType::MinusEqual => Some(Token::MinusEqual),
        TokenType::StarEqual => Some(Token::StarEqual),
        TokenType::StarStarEqual => Some(Token::StarStarEqual),
        TokenType::SlashEqual => Some(Token::SlashEqual),
        TokenType::PercentEqual => Some(Token::PercentEqual),
        TokenType::LessLessEqual => Some(Token::LessLessEqual),
        TokenType::GreaterGreaterEqual => Some(Token::GreaterGreaterEqual),
        TokenType::AmpersandEqual => Some(Token::AmpersandEqual),
        TokenType::PipeEqual => Some(Token::PipeEqual),
        TokenType::CaretEqual => Some(Token::CaretEqual),
        TokenType::If => Some(Token::If),
        TokenType::Elif => Some(Token::Elif),
        TokenType::Else => Some(Token::Else),
        TokenType::For => Some(Token::For),
        TokenType::While => Some(Token::While),
        TokenType::Break => Some(Token::Break),
        TokenType::Continue => Some(Token::Continue),
        TokenType::Pass => Some(Token::Pass),
        TokenType::Return => Some(Token::Return),
        TokenType::Match => Some(Token::Match),
        TokenType::When => Some(Token::When),
        TokenType::As => Some(Token::As),
        TokenType::Assert => Some(Token::Assert),
        TokenType::Await => Some(Token::Await),
        TokenType::Breakpoint => Some(Token::Breakpoint),
        TokenType::Class => Some(Token::Class),
        TokenType::ClassName => Some(Token::ClassName),
        TokenType::Const => Some(Token::Const),
        TokenType::Enum => Some(Token::Enum),
        TokenType::Extends => Some(Token::Extends),
        TokenType::Func => Some(Token::Func),
        TokenType::In => Some(Token::In),
        TokenType::Is => Some(Token::Is),
        TokenType::Namespace => Some(Token::Namespace),
        TokenType::Preload => Some(Token::Preload),
        TokenType::_Self => Some(Token::_Self),
        TokenType::Signal => Some(Token::Signal),
        TokenType::Static => Some(Token::Static),
        TokenType::Super => Some(Token::Super),
        TokenType::Trait => Some(Token::Trait),
        TokenType::Var => Some(Token::Var),
        TokenType::Void => Some(Token::Void),
        TokenType::Yield => Some(Token::Yield),
        TokenType::BracketOpen => Some(Token::BracketOpen),
        TokenType::BracketClose => Some(Token::BracketClose),
        TokenType::BraceOpen => Some(Token::BraceOpen),
        TokenType::BraceClose => Some(Token::BraceClose),
        TokenType::ParenthesisOpen => Some(Token::ParenthesisOpen),
        TokenType::ParenthesisClose => Some(Token::ParenthesisClose),
        TokenType::Comma => Some(Token::Comma),
        TokenType::Semicolon => Some(Token::Semicolon),
        TokenType::Period => Some(Token::Period),
        TokenType::PeriodPeriod => Some(Token::PeriodPeriod),
        TokenType::PeriodPeriodPeriod => Some(Token::PeriodPeriodPeriod),
        TokenType::Colon => Some(Token::Colon),
        TokenType::Dollar => Some(Token::Dollar),
        TokenType::ForwardArrow => Some(Token::ForwardArrow),
        TokenType::Underscore => Some(Token::Underscore),
        TokenType::Indent => Some(Token::Indent),
        TokenType::Dedent => Some(Token::Dedent),
        TokenType::ConstPi => Some(Token::ConstPi),
        TokenType::ConstTau => Some(Token::ConstTau),
        TokenType::ConstInf => Some(Token::ConstInf),
        TokenType::ConstNan => Some(Token::ConstNan),
        TokenType::VcsConflictMarker => Some(Token::VcsConflictMarker),
        TokenType::Backtick => Some(Token::Backtick),
        TokenType::QuestionMark => Some(Token::QuestionMark),
        TokenType::Eof => Some(Token::Eof),
        TokenType::Do => Some(Token::Do),
        TokenType::Case => Some(Token::Case),
        TokenType::Switch => Some(Token::Switch),
        TokenType::Slave => Some(Token::Slave),
        TokenType::SlaveSync => Some(Token::SlaveSync),
        TokenType::BuiltInType => Some(Token::BuiltInType),
        TokenType::BuiltInFunc => Some(Token::BuiltInFunc),
        TokenType::OnReady => Some(Token::OnReady),
        TokenType::Tool => Some(Token::Tool),
        TokenType::Export => Some(Token::Export),
        TokenType::SetGet => Some(Token::SetGet),
        TokenType::Remote => Some(Token::Remote),
        TokenType::Sync => Some(Token::Sync),
        TokenType::Master => Some(Token::Master),
        TokenType::Puppet => Some(Token::Puppet),
        TokenType::RemoteSync => Some(Token::RemoteSync),
        TokenType::MasterSync => Some(Token::MasterSync),
        TokenType::PuppetSync => Some(Token::PuppetSync),
        TokenType::Wildcard => Some(Token::Wildcard),
        TokenType::Cursor => Some(Token::Cursor),
        TokenType::Abstract => Some(Token::Abstract),
        _ => None,
    }
}

/// The token without data that has kind `t`, if there is one.
fn unit_token(t: TokenType) -> (r: Option<Token>)
    ensures
        r == spec_unit_token(t),
{
    match t {
        TokenType::Empty => Some(Token::Empty),
        TokenType::Less => Some(Token::Less),
        TokenType::LessEqual => Some(Token::LessEqual),
        TokenType::Greater => Some(Token::Greater),
        TokenType::GreaterEqual => Some(Token::GreaterEqual),
        TokenType::EqualEqual => Some(Token::EqualEqual),
        TokenType::BangEqual => Some(Token::BangEqual),
        TokenType::And => Some(Token::And),
        TokenType::Or => Some(Token::Or),
        TokenType::Not => Some(Token::Not),
        TokenType::AmpersandAmpersand => Some(Token::AmpersandAmpersand),
        TokenType::PipePipe => Some(Token::PipePipe),
        TokenType::Bang => Some(Token::Bang),
        TokenType::Ampersand => Some(Token::Ampersand),
        TokenType::Pipe => Some(Token::Pipe),
        TokenType::Tilde => Some(Token::Tilde),
        TokenType::Caret => Some(Token::Caret),
        TokenType::LessLess => Some(Token::LessLess),
        TokenType::GreaterGreater => Some(Token::GreaterGreater),
        TokenType::Plus => Some(Token::Plus),
        TokenType::Minus => Some(Token::Minus),
        TokenType::Star => Some(Token::Star),
        TokenType::StarStar => Some(Token::StarStar),
        TokenType::Slash => Some(Token::Slash),
        TokenType::Percent => Some(Token::Percent),
        TokenType::Equal => Some(Token::Equal),
        TokenType::PlusEqual => Some(Token::PlusEqual),
        TokenType::MinusEqual => Some(Token::MinusEqual),
        TokenType::StarEqual => Some(Token::StarEqual),
        TokenType::StarStarEqual => Some(Token::StarStarEqual),
        TokenType::SlashEqual => Some(Token::SlashEqual),
        TokenType::PercentEqual => Some(Token::PercentEqual),
        TokenType::LessLessEqual => Some(Token::LessLessEqual),
        TokenType::GreaterGreaterEqual => Some(Token::GreaterGreaterEqual),
        TokenType::AmpersandEqual => Some(Token::AmpersandEqual),
        TokenType::PipeEqual => Some(Token::PipeEqual),
        TokenType::CaretEqual => Some(Token::CaretEqual),
        TokenType::If => Some(Token::If),
        TokenType::Elif => Some(Token::Elif),
        TokenType::Else => Some(Token::Else),
        TokenType::For => Some(Token::For),
        TokenType::While => Some(Token::While),
        TokenType::Break => Some(Token::Break),
        TokenType::Continue => Some(Token::Continue),
        TokenType::Pass => Some(Token::Pass),
        TokenType::Return => Some(Token::Return),
        TokenType::Match => Some(Token::Match),
        TokenType::When => Some(Token::When),
        TokenType::As => Some(Token::As),
        TokenType::Assert => Some(Token::Assert),
        TokenType::Await => Some(Token::Await),
        TokenType::Breakpoint => Some(Token::Breakpoint),
        TokenType::Class => Some(Token::Class),
        TokenType::ClassName => Some(Token::ClassName),
        TokenType::Const => Some(Token::Const),
        TokenType::Enum => Some(Token::Enum),
        TokenType::Extends => Some(Token::Extends),
        TokenType::Func => Some(Token::Func),
        TokenType::In => Some(Token::In),
        TokenType::Is => Some(Token::Is),
        TokenType::Namespace => Some(Token::Namespace),
        TokenType::Preload => Some(Token::Preload),
        TokenType::_Self => Some(Token::_Self),
        TokenType::Signal => Some(Token::Signal),
        TokenType::Static => Some(Token::Static),
        TokenType::Super => Some(Token::Super),
        TokenType::Trait => Some(Token::Trait),
        TokenType::Var => Some(Token::Var),
        TokenType::Void => Some(Token::Void),
        TokenType::Yield => Some(Token::Yield),
        TokenType::BracketOpen => Some(Token::BracketOpen),
        TokenType::BracketClose => Some(Token::BracketClose),
        TokenType::BraceOpen => Some(Token::BraceOpen),
        TokenType::BraceClose => Some(Token::BraceClose),
        TokenType::ParenthesisOpen => Some(Token::ParenthesisOpen),
        TokenType::ParenthesisClose => Some(Token::ParenthesisClose),
        TokenType::Comma => Some(Token::Comma),
        TokenType::Semicolon => Some(Token::Semicolon),
        TokenType::Period => Some(Token::Period),
        TokenType::PeriodPeriod => Some(Token::PeriodPeriod),
        TokenType::PeriodPeriodPeriod => Some(Token::PeriodPeriodPeriod),
        TokenType::Colon => Some(Token::Colon),
        TokenType::Dollar => Some(Token::Dollar),
        TokenType::ForwardArrow => Some(Token::ForwardArrow),
        TokenType::Underscore => Some(Token::Underscore),
        TokenType::Indent => Some(Token::Indent),
        TokenType::Dedent => Some(Token::Dedent),
        TokenType::ConstPi => Some(Token::ConstPi),
        TokenType::ConstTau => Some(Token::ConstTau),
        TokenType::ConstInf => Some(Token::ConstInf),
        TokenType::ConstNan => Some(Token::ConstNan),
        TokenType::VcsConflictMarker => Some(Token::VcsConflictMarker),
        TokenType::Backtick => Some(Token::Backtick),
        TokenType::QuestionMark => Some(Token::QuestionMark),
        TokenType::Eof => Some(Token::Eof),
        TokenType::Do => Some(Token::Do),
        TokenType::Case => Some(Token::Case),
        TokenType::Switch => Some(Token::Switch),
        TokenType::Slave => Some(Token::Slave),
        TokenType::SlaveSync => Some(Token::SlaveSync),
        TokenType::BuiltInType => Some(Token::BuiltInType),
        TokenType::BuiltInFunc => Some(Token::BuiltInFunc),
        TokenType::OnReady => Some(Token::OnReady),
        TokenType::Tool => Some(Token::Tool),
        TokenType::Export => Some(Token::Export),
        TokenType::SetGet => Some(Token::SetGet),
        TokenType::Remote => Some(Token::Remote),
        TokenType::Sync => Some(Token::Sync),
        TokenType::Master => Some(Token::Master),
        TokenType::Puppet => Some(Token::Puppet),
        TokenType::RemoteSync => Some(Token::RemoteSync),
        TokenType::MasterSync => Some(Token::MasterSync),
        TokenType::PuppetSync => Some(Token::PuppetSync),
        TokenType::Wildcard => Some(Token::Wildcard),
        TokenType::Cursor => Some(Token::Cursor),
        TokenType::Abstract => Some(Token::Abstract),
        _ => None,
    }
}

/// Number of bytes of the token word at the start of `rest`: four when the first byte has the
/// high bit set, else one.
pub open spec fn token_word_len(rest: Seq<u8>) -> nat {
    if rest[0] & 0x80u8 != 0 { 4 } else { 1 }
}

/// The token word at the start of `rest`.
pub open spec fn token_word(rest: Seq<u8>) -> u32 {
    if rest[0] & 0x80u8 != 0 { u32_of_le(rest.subrange(0, 4)) } else { rest[0] as u32 }
}

/// The span of a token read from bytecode: line `line`, column 0.
pub open spec fn line_span(line: u32) -> Span {
    Span {
        start: Position { line: line as usize, column: 0 },
        end: Position { line: line as usize, column: 0 },
    }
}

/// The empty span at line 0, column 0.
pub open spec fn zero_span() -> Span {
    Span { start: Position { line: 0, column: 0 }, end: Position { line: 0, column: 0 } }
}

/// Whether `tok` with `span` is what the binary token format gives for kind `t` (a kind that can
/// appear there: not a newline or indentation), token word `word` and line `line`. Identifiers
/// and annotations index `identifiers`, literals and errors index `constants`, by the bits above
/// the kind.
pub open spec fn is_decoded_token(
    tok: Token,
    span: Span,
    identifiers: Seq<Seq<char>>,
    constants: Seq<Variant>,
    t: TokenType,
    word: u32,
    line: u32,
) -> bool {
    let pos = (word >> 8u32) as int;
    if t == TokenType::Annotation || t == TokenType::Identifier {
        if pos >= identifiers.len() {
            &&& tok matches Token::Error(Variant::String(m)) && m@ == "Identifier index out of bounds."@
            &&& span == zero_span()
        } else if t == TokenType::Annotation {
            tok matches Token::Annotation(s) && s@ == identifiers[pos] && span == line_span(line)
        } else {
            tok matches Token::Identifier(s) && s@ == identifiers[pos] && span == line_span(line)
        }
    } else if t == TokenType::Error || t == TokenType::Literal {
        if pos >= constants.len() {
            &&& tok matches Token::Error(Variant::String(m)) && m@ == "Constant index out of bounds."@
            &&& span == zero_span()
        } else if t == TokenType::Error {
            tok == Token::Error(constants[pos]) && span == line_span(line)
        } else {
            tok == Token::Literal(constants[pos]) && span == line_span(line)
        }
    } else {
        Some(tok) == spec_unit_token(t) && span == line_span(line)
    }
}

/// Reads one token of the binary token format: a token word (one byte, or four when the first
/// byte has the high bit set) whose low seven bits index `tokens`, then the token's line.
pub fn binary_to_token(
    identifiers: &[String],
    constants: &[Variant],
    tokens: &[TokenType],
    buf: &mut ReadableMarshalBuffer<'_>,
) -> (r: Result<Spanned<Token>, Error>)
    ensures
        final(buf).data() == old(buf).data(),
        final(buf).marking_disabled() == old(buf).marking_disabled(),
        ({
            let rest = old(buf).rest();
            if rest.len() == 0 || rest.len() < token_word_len(rest) {
                r == Err::<Spanned<Token>, Error>(Error::TooShort)
            } else {
                let wl = token_word_len(rest);
                let word = token_word(rest);
                let k = (word & 0x7fu32) as int;
                if k >= tokens@.len() {
                    r == Err::<Spanned<Token>, Error>(Error::BadData)
                } else if rest.len() < wl + 4 {
                    r == Err::<Spanned<Token>, Error>(Error::TooShort)
                } else {
                    let t = tokens@[k];
                    let line = u32_of_le(rest.subrange(wl as int, wl + 4int));
                    if t == TokenType::Newline || t == TokenType::Indent || t == TokenType::Dedent {
                        r == Err::<Spanned<Token>, Error>(Error::BadData)
                    } else {
                        &&& r matches Ok(v) && is_decoded_token(v.0, v.1, identifiers@.map_values(|s: String| s@),
                            constants@, t, word, line)
                        &&& r matches Ok(v) && (v.0 is Error || spec_token_type(v.0) == t)
                        &&& final(buf).pos() == old(buf).pos() + wl + 4
                    }
                }
            }
        }),
{
    proof {
        assert forall|tt: TokenType| (#[trigger] spec_unit_token(tt) matches Some(tok) ==> spec_token_type(tok) == tt) by {
            law_unit_token_has_its_kind(tt);
        }
    }
    let ghost rest = buf.rest();
    if buf.ensure_remaining(1).is_err() {
        return Err(Error::TooShort);
    }
    let first_byte = buf.buffer()[0];
    let is_4_byte_token = first_byte & TOKEN_BYTE_MASK != 0;
    assert(is_4_byte_token == (rest[0] & 0x80u8 != 0));
    let raw_id = if is_4_byte_token {
        match buf.decode_uint32() {
            Ok(v) => v,
            Err(_) => {
                return Err(Error::TooShort);
            },
        }
    } else {
        buf.advance(1);
        first_byte as u32
    };
    proof {
        if is_4_byte_token {
            assert(old(buf).data().subrange(old(buf).pos() as int, old(buf).pos() + 4int) =~= rest.subrange(0, 4));
        }
    }
    buf.mark();
    let kind = (raw_id & TOKEN_MASK) as usize;
    if kind >= tokens.len() {
        return Err(Error::BadData);
    }
    let token_type = tokens[kind];
    let ghost after_word = buf.pos();
    let start_line = match buf.decode_uint32() {
        Ok(v) => v,
        Err(_) => {
            return Err(Error::TooShort);
        },
    };
    proof {
        assert(buf.data().subrange(after_word as int, after_word + 4int)
            =~= rest.subrange(token_word_len(rest) as int, token_word_len(rest) + 4int));
    }
    buf.mark();
    let pos = Position { line: start_line as usize, column: 0 };
    let span = Span::new(pos, pos);
    let index = (raw_id >> TOKEN_BITS) as usize;
    let token = match token_type {
        TokenType::Annotation | TokenType::Identifier => {
            if index >= identifiers.len() {
                let error = Token::Error(Variant::String(string_from("Identifier index out of bounds.")));
                return Ok((error, Span::zero()));
            }
            let name = identifiers[index].clone();
            if token_type == TokenType::Annotation {
                Token::Annotation(name)
            } else {
                Token::Identifier(name)
            }
        },
        TokenType::Error | TokenType::Literal => {
            if index >= constants.len() {
                let error = Token::Error(Variant::String(string_from("Constant index out of bounds.")));
                return Ok((error, Span::zero()));
            }
            let constant = constants[index].clone();
            if token_type == TokenType::Error {
                Token::Error(constant)
            } else {
                Token::Literal(constant)
            }
        },
        TokenType::Newline | TokenType::Indent | TokenType::Dedent => {
            return Err(Error::BadData);
        },
        _ => match unit_token(token_type) {
            Some(t) => t,
            None => {
                proof { assert(false); }
                return Err(Error::BadData);
            },
        },
    };
    Ok((token, span))
}

/// A string holding the characters of `s`.
fn string_from(s: &str) -> (r: String)
    ensures
        r@ == s@,
{
    s.to_owned()
}

/// The entries that `read_token_lines` reads from `bytes`: `count` pairs of little-endian `u32`s
/// (token index, then value), later pairs replacing earlier ones with the same index.
pub open spec fn token_line_entries(bytes: Seq<u8>, count: nat) -> Map<usize, usize>
    decreases count,
{
    if count == 0 {
        Map::empty()
    } else {
        let i = (count - 1) * 8;
        token_line_entries(bytes, (count - 1) as nat).insert(
            u32_of_le(bytes.subrange(i, i + 4)) as usize,
            u32_of_le(bytes.subrange(i + 4, i + 8)) as usize,
        )
    }
}

/// Reads `count` (token index, value) pairs of little-endian `u32`s into a map.
pub fn read_token_lines(count: usize, buf: &mut ReadableMarshalBuffer) -> (r: Result<HashMap<usize, usize>, Error>)
    ensures
        final(buf).data() == old(buf).data(),
        final(buf).marking_disabled() == old(buf).marking_disabled(),
        r is Ok <==> 8 * count <= old(buf).rest().len(),
        r is Err ==> r == Err::<HashMap<usize, usize>, Error>(Error::TooShort),
        r matches Ok(m) ==> m@ == token_line_entries(old(buf).rest(), count as nat)
            && final(buf).pos() == old(buf).pos() + 8 * count,
{
    let ghost rest = buf.rest();
    let ghost start = buf.pos();
    let mut token_lines: HashMap<usize, usize> = HashMap::new();
    let mut i: usize = 0;
    while i < count
        invariant
            i <= count,
            buf.data() == old(buf).data(),
            buf.marking_disabled() == old(buf).marking_disabled(),
            rest == old(buf).rest(),
            start == old(buf).pos(),
            8 * i <= rest.len(),
            buf.pos() == start + 8 * i,
            token_lines@ == token_line_entries(rest, i as nat),
        decreases count - i,
    {
        let token_index = match buf.decode_uint32() {
            Ok(v) => v,
            Err(_) => {
                return Err(Error::TooShort);
            },
        };
        let line = match buf.decode_uint32() {
            Ok(v) => v,
            Err(_) => {
                return Err(Error::TooShort);
            },
        };
        buf.mark();
        proof {
            let b = 8 * i as int;
            assert(buf.data().subrange(start + b, start + b + 4) =~= rest.subrange(b, b + 4));
            assert(buf.data().subrange(start + b + 4, start + b + 8) =~= rest.subrange(b + 4, b + 8));
        }
        token_lines.insert(token_index as usize, line as usize);
        i = i + 1;
    }
    Ok(token_lines)
}

/// Reads tokens of the compiled GDScript format, synthesizing the newline, indent and dedent
/// tokens that the format leaves out from the lines and columns recorded for some tokens.
pub struct TokenizerBytecode<'v> {
    version: &'v GDScriptBuild,
    token_lines: HashMap<usize, usize>,
    token_columns: HashMap<usize, usize>,
    tokens: Vec<Spanned<Token>>,
    /// Index of the next token (`usize::MAX` once the end-of-file token was produced).
    current: usize,
    current_line: usize,
    multiline_mode: bool,
    indent_stack: Vec<usize>,
    pending_indents: isize,
    /// Number of indent tokens produced.
    indents: Ghost<nat>,
    /// Number of dedent tokens produced.
    dedents: Ghost<nat>,
    last_token_was_newline: bool,
}

/// Whether `t` is a token that marks the layout of lines: a newline, indent or dedent.
pub open spec fn is_layout(t: Token) -> bool {
    t is Newline || t is Indent || t is Dedent
}

/// What one call of `TokenizerBytecode::next` does, from `a` to `b`, returning `r`: the stored
/// tokens stay; the call returns `None` exactly when the end-of-file token was already produced;
/// a layout token leaves the position in the stored tokens; any other token before the end is the
/// next stored token, and the position moves past it; the call that finishes returns the
/// end-of-file token, once every stored token was returned.
pub open spec fn bytecode_step<'v>(a: TokenizerBytecode<'v>, b: TokenizerBytecode<'v>, r: Option<Spanned<Token>>) -> bool {
    &&& b.token_list() == a.token_list()
    &&& (r is None <==> a.finished())
    &&& a.finished() ==> b.finished() && b.next_index() == a.next_index()
    &&& (r matches Some(t) && is_layout(t.0)) ==> !b.finished() && b.next_index() == a.next_index()
    &&& (!a.finished() && b.finished()) ==> (r matches Some(t) && t.0 is Eof)
        && a.next_index() == a.token_list().len()
    &&& r matches Some(t) ==> (!is_layout(t.0) && !b.finished() ==> a.next_index() < a.token_list().len()
        && t == a.token_list()[a.next_index() as int] && b.next_index() == a.next_index() + 1)
    &&& b.indents_returned() == a.indents_returned() + (if r matches Some(t) && t.0 is Indent { 1int } else { 0int })
    &&& b.dedents_returned() == a.dedents_returned() + (if r matches Some(t) && t.0 is Dedent { 1int } else { 0int })
}

/// The open indentation levels after a line that starts at column `width` (counted from 0): a
/// deeper line opens a level; otherwise the levels deeper than it close.
pub open spec fn bytecode_levels_after(stack: Seq<usize>, width: usize) -> Seq<usize> {
    if width > innermost_indent(stack) { stack.push(width) } else { pop_wider(stack, width) }
}

/// Which token one call of `TokenizerBytecode::next` returns from `a`, given what it returned:
/// first a newline after the last stored token; then waiting indent or dedent tokens; at a stored
/// token that starts a line (outside multiline mode, and not right after a newline) a newline,
/// with the indentation levels updated from that line's column; otherwise the stored token; and
/// at the end, dedents for the open levels, then the end-of-file token.
pub open spec fn bytecode_emits<'v>(a: TokenizerBytecode<'v>, b: TokenizerBytecode<'v>, r: Option<Spanned<Token>>) -> bool {
    let n = a.token_list().len();
    let i = a.next_index();
    if a.finished() {
        r is None
    } else if i >= n && !a.after_newline() {
        r matches Some(t) && t.0 == (Token::Newline { continuation: false })
    } else if a.pending() > 0 {
        r matches Some(t) && t.0 is Indent
    } else if a.pending() < 0 {
        r matches Some(t) && t.0 is Dedent
    } else if i >= n {
        r matches Some(t) && (if a.levels().len() > 0 { t.0 is Dedent } else { t.0 is Eof })
    } else if !a.after_newline() && a.line_of().contains_key(i as usize) && !a.multiline() {
        let w = (a.column_of()[i as usize] - 1) as usize;
        &&& r matches Some(t) && t.0 == (Token::Newline { continuation: false })
        &&& b.levels() == bytecode_levels_after(a.levels(), w)
        &&& b.pending() == a.pending() + pending_change(a.levels(), w)
        &&& b.line() == a.line_of()[i as usize]
    } else {
        r == Some(a.token_list()[i as int])
    }
}

/// The tokens of `rs` that are not layout tokens, in order.
pub open spec fn non_layout(rs: Seq<Option<Spanned<Token>>>) -> Seq<Spanned<Token>>
    decreases rs.len(),
{
    if rs.len() == 0 {
        Seq::empty()
    } else {
        let rest = non_layout(rs.drop_last());
        match rs.last() {
            Some(t) => if is_layout(t.0) { rest } else { rest.push(t) },
            None => rest,
        }
    }
}

impl<'v> TokenizerBytecode<'v> {
    /// The tokens read from the script, in order.
    pub closed spec fn token_list(&self) -> Seq<Spanned<Token>> {
        self.tokens@
    }

    /// Index of the next stored token.
    pub closed spec fn next_index(&self) -> nat {
        self.current as nat
    }

    /// Whether the end-of-file token has been produced.
    pub closed spec fn finished(&self) -> bool {
        self.current == usize::MAX
    }

    /// Whether the tokenizer is in multiline mode.
    pub closed spec fn multiline(&self) -> bool {
        self.multiline_mode
    }

    /// The engine build whose rules the tokenizer follows.
    pub closed spec fn build(&self) -> GDScriptBuild {
        *self.version
    }

    /// How many indent tokens have been returned.
    pub closed spec fn indents_returned(&self) -> nat {
        self.indents@
    }

    /// How many dedent tokens have been returned.
    pub closed spec fn dedents_returned(&self) -> nat {
        self.dedents@
    }

    /// Depth of the indentation stack.
    pub closed spec fn depth(&self) -> nat {
        self.indent_stack@.len()
    }

    /// The open indentation levels (columns counted from 0), innermost last.
    pub closed spec fn levels(&self) -> Seq<usize> {
        self.indent_stack@
    }

    /// Indent tokens (positive) or dedent tokens (negative) waiting to be returned.
    pub closed spec fn pending(&self) -> int {
        self.pending_indents as int
    }

    /// Whether the last token returned was a newline.
    pub closed spec fn after_newline(&self) -> bool {
        self.last_token_was_newline
    }

    /// For the stored tokens that start a line: their line.
    pub closed spec fn line_of(&self) -> Map<usize, usize> {
        self.token_lines@
    }

    /// For the stored tokens that start a line: their indentation column, counted from 1.
    pub closed spec fn column_of(&self) -> Map<usize, usize> {
        self.token_columns@
    }

    /// The current line.
    pub closed spec fn line(&self) -> usize {
        self.current_line
    }

    /// The tokenizer's internal invariant.
    pub closed spec fn wf(&self) -> bool {
        let n = self.tokens@.len();
        &&& n <= 0x7fff_fffe
        &&& forall|i: int| 0 <= i < n ==> !((#[trigger] self.tokens@[i]).0 is Newline
            || self.tokens@[i].0 is Indent || self.tokens@[i].0 is Dedent)
        &&& self.current == usize::MAX || self.current <= n
        &&& self.current == usize::MAX ==> self.indent_stack@.len() == 0 && self.pending_indents == 0
            && self.last_token_was_newline
        &&& self.current != usize::MAX ==> self.indent_stack@.len() <= self.current
            + (if self.last_token_was_newline { 1int } else { 0int })
        &&& -(n as int) - 1 <= self.pending_indents <= 1
        &&& self.indents@ - self.dedents@ == self.indent_stack@.len() - self.pending_indents
        &&& forall|k: usize| #[trigger] self.token_lines@.contains_key(k) ==> self.token_columns@.contains_key(k)
            && self.token_columns@[k] >= 1
    }

    /// A tokenizer over `tokens`, the tokens of a compiled script. `token_lines` and
    /// `token_columns` give, for the tokens that start a line, that line and its indentation
    /// column (counted from 1).
    pub fn from_parts(
        version: &'v GDScriptBuild,
        token_lines: HashMap<usize, usize>,
        token_columns: HashMap<usize, usize>,
        tokens: Vec<Spanned<Token>>,
    ) -> (r: Self)
        requires
            tokens@.len() <= 0x7fff_fffe,
            forall|i: int| 0 <= i < tokens@.len() ==> !((#[trigger] tokens@[i]).0 is Newline
                || tokens@[i].0 is Indent || tokens@[i].0 is Dedent),
            forall|k: usize| #[trigger] token_lines@.contains_key(k) ==> token_columns@.contains_key(k)
                && token_columns@[k] >= 1,
        ensures
            r.wf(),
            r.build() == *version,
            r.token_list() == tokens@,
            r.next_index() == 0,
            !r.finished(),
            !r.multiline(),
            r.indents_returned() == 0,
            r.dedents_returned() == 0,
    {
        TokenizerBytecode {
            version,
            token_lines,
            token_columns,
            tokens,
            current: 0,
            current_line: 0,
            multiline_mode: false,
            indent_stack: Vec::new(),
            pending_indents: 0,
            indents: Ghost(0),
            dedents: Ghost(0),
            last_token_was_newline: false,
        }
    }

    /// The span at the current line, column 0.
    fn create_current_position_span(&self) -> (r: Span)
        ensures
            r.start == (Position { line: self.current_line, column: 0 }),
            r.end == r.start,
    {
        let pos = Position { line: self.current_line, column: 0 };
        Span::new(pos, pos)
    }

    /// Produces the next token: stored tokens in order, with newline, indent and dedent tokens
    /// where lines start, a final newline, dedents closing open indentation, and the end-of-file
    /// token; then `None`.
    pub fn next(&mut self) -> (r: Option<Spanned<Token>>)
        requires
            old(self).wf(),
        ensures
            final(self).wf(),
            final(self).multiline() == old(self).multiline(),
            final(self).build() == old(self).build(),
            old(self).finished() ==> *final(self) == *old(self),
            bytecode_step(*old(self), *final(self), r),
            bytecode_emits(*old(self), *final(self), r),
            final(self).line_of() == old(self).line_of(),
            final(self).column_of() == old(self).column_of(),
        decreases old(self).depth(),
    {
        if self.current >= self.tokens.len() && !self.last_token_was_newline {
            self.last_token_was_newline = true;
            let span = self.create_current_position_span();
            return Some((Token::Newline { continuation: false }, span));
        }
        if self.pending_indents > 0 {
            self.pending_indents = self.pending_indents - 1;
            self.indents = Ghost(self.indents@ + 1);
            let span = self.create_current_position_span();
            return Some((Token::Indent, span));
        } else if self.pending_indents < 0 {
            self.pending_indents = self.pending_indents + 1;
            self.dedents = Ghost(self.dedents@ + 1);
            let span = self.create_current_position_span();
            return Some((Token::Dedent, span));
        }
        if self.current >= self.tokens.len() {
            if self.indent_stack.len() > 0 {
                let depth = self.indent_stack.len();
                self.pending_indents = self.pending_indents - depth as isize;
                self.indent_stack.clear();
                return self.next();
            }
            if self.current == usize::MAX {
                return None;
            }
            self.current = usize::MAX;
            let span = self.create_current_position_span();
            return Some((Token::Eof, span));
        }
        let mut emit_newline = false;
        if !self.last_token_was_newline && self.token_lines.contains_key(&self.current) {
            let line = match self.token_lines.get(&self.current) {
                Some(l) => *l,
                None => {
                    proof { assert(false); }
                    0
                },
            };
            self.current_line = line;
            let current_column = match self.token_columns.get(&self.current) {
                Some(c) => *c,
                None => {
                    proof { assert(false); }
                    1
                },
            };
            let ghost s0 = self.indent_stack@;
            let ghost p0 = self.pending_indents as int;
            if !self.multiline_mode {
                let mut previous_indent: usize = if self.indent_stack.len() > 0 {
                    self.indent_stack[self.indent_stack.len() - 1]
                } else {
                    0
                };
                if current_column - 1 > previous_indent {
                    self.pending_indents = self.pending_indents + 1;
                    self.indent_stack.push(current_column - 1);
                } else {
                    while current_column - 1 < previous_indent
                        invariant_except_break
                            self.wf(),
                            self.tokens == old(self).tokens,
                            self.version == old(self).version,
                            self.current == old(self).current,
                            self.multiline_mode == old(self).multiline_mode,
                            !self.last_token_was_newline,
                            self.current < self.tokens@.len(),
                            self.pending_indents <= 0,
                            -(self.pending_indents as int) + self.indent_stack@.len() <= self.current,
                            self.indents == old(self).indents,
                            self.dedents == old(self).dedents,
                            current_column >= 1,
                            self.token_lines == old(self).token_lines,
                            self.token_columns == old(self).token_columns,
                            self.current_line == line,
                            self.indent_stack@.len() <= s0.len(),
                            self.indent_stack@ == s0.subrange(0, self.indent_stack@.len() as int),
                            pop_wider(self.indent_stack@, (current_column - 1) as usize)
                                == pop_wider(s0, (current_column - 1) as usize),
                            self.indent_stack@.len() > 0 ==> previous_indent == innermost_indent(self.indent_stack@),
                            self.pending_indents == p0 - (s0.len() - self.indent_stack@.len()),
                        ensures
                            self.wf(),
                            self.tokens == old(self).tokens,
                            self.version == old(self).version,
                            self.current == old(self).current,
                            self.multiline_mode == old(self).multiline_mode,
                            !self.last_token_was_newline,
                            self.current < self.tokens@.len(),
                            self.pending_indents <= 0,
                            -(self.pending_indents as int) + self.indent_stack@.len() <= self.current,
                            self.indents == old(self).indents,
                            self.dedents == old(self).dedents,
                            self.token_lines == old(self).token_lines,
                            self.token_columns == old(self).token_columns,
                            self.current_line == line,
                            pop_wider(self.indent_stack@, (current_column - 1) as usize)
                                == pop_wider(s0, (current_column - 1) as usize),
                            self.pending_indents == p0 - (s0.len() - self.indent_stack@.len()),
                            pop_wider(self.indent_stack@, (current_column - 1) as usize) == self.indent_stack@,
                        decreases self.indent_stack@.len(),
                    {
                        if self.indent_stack.len() == 0 {
                            break;
                        }
                        proof {
                            let st = self.indent_stack@;
                            assert(pop_wider(st, (current_column - 1) as usize)
                                == pop_wider(st.drop_last(), (current_column - 1) as usize));
                            assert(st.drop_last() =~= s0.subrange(0, st.len() - 1));
                        }
                        self.pending_indents = self.pending_indents - 1;
                        self.indent_stack.pop();
                        if self.indent_stack.len() > 0 {
                            previous_indent = self.indent_stack[self.indent_stack.len() - 1];
                        } else {
                            break;
                        }
                    }
                    proof {
                        assert(pop_wider(self.indent_stack@, (current_column - 1) as usize) == self.indent_stack@);
                    }
                }
                emit_newline = true;
            }
        }
        if emit_newline {
            self.last_token_was_newline = true;
            let span = self.create_current_position_span();
            Some((Token::Newline { continuation: false }, span))
        } else {
            self.last_token_was_newline = false;
            let (token, span) = &self.tokens[self.current];
            let token = (token.duplicate(), *span);
            self.current = self.current + 1;
            Some(token)
        }
    }
}

impl<'v> Sealed for TokenizerBytecode<'v> {}

impl<'v> Tokenizer for TokenizerBytecode<'v> {
    open spec fn well_formed(&self) -> bool {
        self.wf()
    }

    fn version(&self) -> (r: &GDScriptBuild)
        ensures
            *r == self.build(),
    {
        self.version
    }

    fn set_multiline_mode(&mut self, multiline: bool)
        ensures
            final(self).multiline() == multiline,
            final(self).build() == old(self).build(),
            final(self).token_list() == old(self).token_list(),
            final(self).next_index() == old(self).next_index(),
            final(self).finished() == old(self).finished(),
            final(self).indents_returned() == old(self).indents_returned(),
            final(self).dedents_returned() == old(self).dedents_returned(),
    {
        self.multiline_mode = multiline;
    }

    fn next_token(&mut self) -> (r: Option<Spanned<Token>>)
        ensures
            final(self).multiline() == old(self).multiline(),
            final(self).build() == old(self).build(),
            old(self).finished() ==> *final(self) == *old(self),
            bytecode_step(*old(self), *final(self), r),
            bytecode_emits(*old(self), *final(self), r),
    {
        self.next()
    }
}

/// Calling `next` until the end-of-file token returns the stored tokens in order, from the
/// position it starts at, with only layout tokens (newlines, indents, dedents) between them, and
/// the end-of-file token last. `states` are the tokenizer before and after each call, `results`
/// what the calls returned.
pub proof fn law_bytecode_tokens_in_order<'v>(states: Seq<TokenizerBytecode<'v>>, results: Seq<Option<Spanned<Token>>>)
    requires
        results.len() > 0,
        states.len() == results.len() + 1,
        states[0].wf(),
        forall|k: int| 0 <= k < results.len() ==> bytecode_step(#[trigger] states[k], states[k + 1], results[k]),
        forall|k: int| 0 <= k < results.len() ==> !(#[trigger] states[k]).finished(),
        states.last().finished(),
    ensures
        non_layout(results.drop_last()) == states[0].token_list().skip(states[0].next_index() as int),
        results.last() matches Some(t) && t.0 is Eof,
{
    let n = results.len() - 1;
    assert(!states[0].finished());
    let list = states[0].token_list();
    let start = states[0].next_index() as int;
    assert forall|k: int| 0 <= k <= n implies #[trigger] states[k].token_list() == list
        && states[k].next_index() >= start
        && non_layout(results.take(k)) == list.subrange(start, states[k].next_index() as int)
        && states[k].next_index() <= list.len() by {
        lemma_trace_prefix(states, results, k);
    }
    assert(bytecode_step(states[n], states[n + 1], results[n]));
    assert(states[n + 1] == states.last());
    assert(results.drop_last() =~= results.take(n));
    assert(states[n].next_index() == list.len());
    assert(list.subrange(start, list.len() as int) =~= list.skip(start));
}

/// The first `k` calls of a run return the stored tokens from the starting position up to the
/// position after them.
proof fn lemma_trace_prefix<'v>(states: Seq<TokenizerBytecode<'v>>, results: Seq<Option<Spanned<Token>>>, k: int)
    requires
        states.len() == results.len() + 1,
        forall|j: int| 0 <= j < results.len() ==> bytecode_step(#[trigger] states[j], states[j + 1], results[j]),
        forall|j: int| 0 <= j < results.len() ==> !(#[trigger] states[j]).finished(),
        0 <= k < results.len(),
        states[0].next_index() <= states[0].token_list().len(),
    ensures
        states[k].token_list() == states[0].token_list(),
        states[k].next_index() >= states[0].next_index(),
        states[k].next_index() <= states[0].token_list().len(),
        non_layout(results.take(k)) == states[0].token_list().subrange(states[0].next_index() as int,
            states[k].next_index() as int),
    decreases k,
{
    let list = states[0].token_list();
    let start = states[0].next_index() as int;
    if k == 0 {
        assert(results.take(0) =~= Seq::<Option<Spanned<Token>>>::empty());
        assert(list.subrange(start, start) =~= Seq::<Spanned<Token>>::empty());
    } else {
        lemma_trace_prefix(states, results, k - 1);
        let a = states[k - 1];
        let b = states[k];
        assert(bytecode_step(a, b, results[k - 1]));
        assert(!a.finished());
        assert(!b.finished());
        assert(results.take(k).drop_last() =~= results.take(k - 1));
        assert(results.take(k).last() == results[k - 1]);
        let i = a.next_index() as int;
        match results[k - 1] {
            Some(t) => {
                if is_layout(t.0) {
                } else {
                    assert(list.subrange(start, i + 1) =~= list.subrange(start, i).push(list[i]));
                }
            },
            None => {},
        }
    }
}

/// Once the end-of-file token has been produced, the tokenizer has returned as many dedent
/// tokens as indent tokens.
pub proof fn law_bytecode_indent_balance<'v>(t: TokenizerBytecode<'v>)
    requires
        t.wf(),
        t.finished(),
    ensures
        t.indents_returned() == t.dedents_returned(),
{
}


/// Every kind of token without data decodes to a token of that kind.
pub proof fn law_unit_token_has_its_kind(t: TokenType)
    ensures
        spec_unit_token(t) matches Some(tok) ==> spec_token_type(tok) == t,
{
}

/// Every token without data is the one its kind decodes to.
pub proof fn law_kind_decodes_to_its_token(tok: Token)
    requires
        !(tok is Annotation || tok is Identifier || tok is Literal || tok is Error || tok is Newline
            || tok is Indent || tok is Dedent),
    ensures
        spec_unit_token(spec_token_type(tok)) == Some(tok),
{
}

} // verus!
