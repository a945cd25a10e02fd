//! Turns a series of tokens back into GDScript text that tokenizes to about the same tokens
//! (spans aside).
// The reconstruction rules follow GDRETools/gdsdecomp, used under the MIT License:
//
// Copyright (c) 2019 bruvzg
//
// Permission is hereby granted, free of charge, to any person obtaining a copy
// of this software and associated documentation files (the "Software"), to deal
// in the Software without restriction, including without limitation the rights
// to use, copy, modify, merge, publish, distribute, sublicense, and/or sell
// copies of the Software, and to permit persons to whom the Software is
// furnished to do so, subject to the following conditions:
//
// The above copyright notice and this permission notice shall be included in all
// copies or substantial portions of the Software.
//
// THE SOFTWARE IS PROVIDED "AS IS", WITHOUT WARRANTY OF ANY KIND, EXPRESS OR
// IMPLIED, INCLUDING BUT NOT LIMITED TO THE WARRANTIES OF MERCHANTABILITY,
// FITNESS FOR A PARTICULAR PURPOSE AND NONINFRINGEMENT. IN NO EVENT SHALL THE
// AUTHORS OR COPYRIGHT HOLDERS BE LIABLE FOR ANY CLAIM, DAMAGES OR OTHER
// LIABILITY, WHETHER IN AN ACTION OF CONTRACT, TORT OR OTHERWISE, ARISING FROM,
// OUT OF OR IN CONNECTION WITH THE SOFTWARE OR THE USE OR OTHER DEALINGS IN THE
// SOFTWARE.
use vstd::prelude::*;
use crate::engine_build::GDScriptBuild;
use crate::gdscript::{Spanned, Token, TokenType, spec_token_type};
use crate::util::string_from_chars;
use crate::variant::Variant;
use crate::string::{all_digits, dec_dv, digits_value, first_non_digit, first_number_start, is_digit_char,
    is_number_start, lemma_first_non_digit, spec_to_int, to_int_accepts, to_int_digits};
use crate::util::str_chars;
use crate::gdscript::tokenizer::text::{operator_text, spec_keyword, token_start, char_or_nul, xid_run, reads_as, TokenStart, law_keyword_spelling_reads_back, string_body, escape_step, simple_escape, body_prepend, lemma_string_body_step};

verus! {

/// Where a token's text gets a separating space: none, before, or after (unless the next token
/// has the given kind), or both.
#[derive(Debug, Copy, Clone)]
pub enum Padding {
    Empty,
    Before,
    After(Option<TokenType>),
    Both(Option<TokenType>),
}

/// Whether `t` is a newline, indent or dedent token.
pub open spec fn spec_is_newline_or_indent(t: Token) -> bool {
    t is Newline || t is Indent || t is Dedent
}

/// Text and padding of a token other than a literal, identifier, annotation or line-structure
/// token. `%` is padded on both sides after a literal, an identifier or `)`.
pub open spec fn spec_token_text(t: Token, prev: TokenType) -> (Seq<char>, Padding) {
    match t {
        Token::_Self => ("self"@, Padding::Empty),
        Token::In => ("in "@, Padding::Before),
        Token::EqualEqual => ("== "@, Padding::Before),
        Token::BangEqual => ("!= "@, Padding::Before),
        Token::Less => ("< "@, Padding::Before),
        Token::LessEqual => ("<= "@, Padding::Before),
        Token::Greater => ("> "@, Padding::Before),
        Token::GreaterEqual => (">= "@, Padding::Before),
        Token::And => ("and "@, Padding::Before),
        Token::Or => ("or "@, Padding::Before),
        Token::Not => ("not"@, Padding::Both(None)),
        Token::Plus => ("+ "@, Padding::Before),
        Token::Minus => ("- "@, Padding::Before),
        Token::Star => ("* "@, Padding::Before),
        Token::Slash => ("/ "@, Padding::Before),
        Token::LessLess => ("<< "@, Padding::Before),
        Token::GreaterGreater => (">> "@, Padding::Before),
        Token::Equal => ("= "@, Padding::Before),
        Token::PlusEqual => ("+= "@, Padding::Before),
        Token::MinusEqual => ("-= "@, Padding::Before),
        Token::StarEqual => ("*= "@, Padding::Before),
        Token::SlashEqual => ("/= "@, Padding::Before),
        Token::PercentEqual => ("%= "@, Padding::Before),
        Token::LessLessEqual => ("<<= "@, Padding::Before),
        Token::GreaterGreaterEqual => (">>= "@, Padding::Before),
        Token::AmpersandEqual => ("&= "@, Padding::Before),
        Token::PipeEqual => ("|= "@, Padding::Before),
        Token::CaretEqual => ("^= "@, Padding::Before),
        Token::Ampersand => ("& "@, Padding::Before),
        Token::Pipe => ("| "@, Padding::Before),
        Token::Caret => ("^ "@, Padding::Before),
        Token::Tilde => ("~ "@, Padding::Before),
        Token::If => ("if "@, Padding::Before),
        Token::Elif => ("elif "@, Padding::Empty),
        Token::Else => ("else"@, Padding::Both(Some(TokenType::Colon))),
        Token::For => ("for "@, Padding::Empty),
        Token::While => ("while "@, Padding::Empty),
        Token::Break => ("break"@, Padding::Empty),
        Token::Continue => ("continue"@, Padding::Empty),
        Token::Pass => ("pass"@, Padding::Empty),
        Token::Return => ("return"@, Padding::After(None)),
        Token::Match => ("match"@, Padding::After(None)),
        Token::Func => ("func"@, Padding::Both(Some(TokenType::ParenthesisOpen))),
        Token::Class => ("class "@, Padding::Before),
        Token::ClassName => ("class_name "@, Padding::Before),
        Token::Extends => ("extends "@, Padding::Before),
        Token::Is => ("is "@, Padding::Before),
        Token::OnReady => ("onready "@, Padding::Empty),
        Token::Tool => ("tool "@, Padding::Empty),
        Token::Static => ("static "@, Padding::Empty),
        Token::Export => ("export "@, Padding::Empty),
        Token::SetGet => (" setget "@, Padding::Empty),
        Token::Const => ("const "@, Padding::Empty),
        Token::Var => ("var "@, Padding::Before),
        Token::As => ("as "@, Padding::Before),
        Token::Void => ("void "@, Padding::Empty),
        Token::Enum => ("enum "@, Padding::Empty),
        Token::Preload => ("preload"@, Padding::Empty),
        Token::Assert => ("assert "@, Padding::Empty),
        Token::Yield => ("yield"@, Padding::After(Some(TokenType::ParenthesisOpen))),
        Token::Signal => ("signal "@, Padding::Empty),
        Token::Breakpoint => ("breakpoint"@, Padding::After(None)),
        Token::Remote => ("remote "@, Padding::Empty),
        Token::Sync => ("sync "@, Padding::Empty),
        Token::Master => ("master "@, Padding::Empty),
        Token::Slave => ("slave "@, Padding::Empty),
        Token::Puppet => ("puppet "@, Padding::Empty),
        Token::RemoteSync => ("remotesync "@, Padding::Empty),
        Token::MasterSync => ("mastersync "@, Padding::Empty),
        Token::PuppetSync => ("puppetsync "@, Padding::Empty),
        Token::BracketOpen => ("["@, Padding::Empty),
        Token::BracketClose => ("]"@, Padding::Empty),
        Token::BraceOpen => ("{"@, Padding::Empty),
        Token::BraceClose => ("}"@, Padding::Empty),
        Token::ParenthesisOpen => ("("@, Padding::Empty),
        Token::ParenthesisClose => (")"@, Padding::Empty),
        Token::Comma => (", "@, Padding::Empty),
        Token::Semicolon => (";"@, Padding::Empty),
        Token::Period => ("."@, Padding::Empty),
        Token::QuestionMark => ("?"@, Padding::Empty),
        Token::Colon => (":"@, Padding::After(None)),
        Token::Dollar => ("$"@, Padding::Empty),
        Token::ForwardArrow => ("->"@, Padding::Both(None)),
        Token::ConstPi => ("PI"@, Padding::Empty),
        Token::ConstTau => ("TAU"@, Padding::Empty),
        Token::Wildcard => ("_"@, Padding::Empty),
        Token::ConstInf => ("INF"@, Padding::Empty),
        Token::ConstNan => ("NAN"@, Padding::Empty),
        Token::SlaveSync => ("slavesync "@, Padding::Empty),
        Token::Do => ("do "@, Padding::Empty),
        Token::Case => ("case "@, Padding::Empty),
        Token::Switch => ("switch "@, Padding::Empty),
        Token::AmpersandAmpersand => ("&& "@, Padding::Before),
        Token::PipePipe => ("|| "@, Padding::Before),
        Token::Bang => ("!"@, Padding::Before),
        Token::StarStar => ("** "@, Padding::Before),
        Token::StarStarEqual => ("**= "@, Padding::Before),
        Token::When => ("when "@, Padding::Before),
        Token::Await => ("await "@, Padding::Before),
        Token::Namespace => ("namespace "@, Padding::Before),
        Token::Super => ("super "@, Padding::Both(Some(TokenType::Period))),
        Token::Trait => ("trait "@, Padding::Before),
        Token::PeriodPeriod => (".."@, Padding::Empty),
        Token::PeriodPeriodPeriod => ("..."@, Padding::Empty),
        Token::Underscore => ("_"@, Padding::Empty),
        Token::Backtick => ("`"@, Padding::Empty),
        Token::Abstract => ("abstract "@, Padding::Empty),
        Token::Eof => (""@, Padding::Empty),
        Token::Cursor => (""@, Padding::Empty),
        Token::VcsConflictMarker => (""@, Padding::Empty),
        Token::Empty => (""@, Padding::Empty),
        Token::Percent => if prev == TokenType::Literal || prev == TokenType::Identifier
            || prev == TokenType::ParenthesisClose {
            ("%"@, Padding::Both(None))
        } else {
            ("%"@, Padding::Before)
        },
        _ => (Seq::empty(), Padding::Empty),
    }
}

/// Text and padding of a token other than a literal, identifier, annotation or line-structure
/// token.
fn token_text(t: &Token, prev: TokenType) -> (r: (&'static str, Padding))
    ensures
        r.0@ == spec_token_text(*t, prev).0,
        r.1 == spec_token_text(*t, prev).1,
{
    proof {
        reveal_strlit("");
    }
    match t {
        Token::_Self => ("self", Padding::Empty),
        Token::In => ("in ", Padding::Before),
        Token::EqualEqual => ("== ", Padding::Before),
        Token::BangEqual => ("!= ", Padding::Before),
        Token::Less => ("< ", Padding::Before),
        Token::LessEqual => ("<= ", Padding::Before),
        Token::Greater => ("> ", Padding::Before),
        Token::GreaterEqual => (">= ", Padding::Before),
        Token::And => ("and ", Padding::Before),
        Token::Or => ("or ", Padding::Before),
        Token::Not => ("not", Padding::Both(None)),
        Token::Plus => ("+ ", Padding::Before),
        Token::Minus => ("- ", Padding::Before),
        Token::Star => ("* ", Padding::Before),
        Token::Slash => ("/ ", Padding::Before),
        Token::LessLess => ("<< ", Padding::Before),
        Token::GreaterGreater => (">> ", Padding::Before),
        Token::Equal => ("= ", Padding::Before),
        Token::PlusEqual => ("+= ", Padding::Before),
        Token::MinusEqual => ("-= ", Padding::Before),
        Token::StarEqual => ("*= ", Padding::Before),
        Token::SlashEqual => ("/= ", Padding::Before),
        Token::PercentEqual => ("%= ", Padding::Before),
        Token::LessLessEqual => ("<<= ", Padding::Before),
        Token::GreaterGreaterEqual => (">>= ", Padding::Before),
        Token::AmpersandEqual => ("&= ", Padding::Before),
        Token::PipeEqual => ("|= ", Padding::Before),
        Token::CaretEqual => ("^= ", Padding::Before),
        Token::Ampersand => ("& ", Padding::Before),
        Token::Pipe => ("| ", Padding::Before),
        Token::Caret => ("^ ", Padding::Before),
        Token::Tilde => ("~ ", Padding::Before),
        Token::If => ("if ", Padding::Before),
        Token::Elif => ("elif ", Padding::Empty),
        Token::Else => ("else", Padding::Both(Some(TokenType::Colon))),
        Token::For => ("for ", Padding::Empty),
        Token::While => ("while ", Padding::Empty),
        Token::Break => ("break", Padding::Empty),
        Token::Continue => ("continue", Padding::Empty),
        Token::Pass => ("pass", Padding::Empty),
        Token::Return => ("return", Padding::After(None)),
        Token::Match => ("match", Padding::After(None)),
        Token::Func => ("func", Padding::Both(Some(TokenType::ParenthesisOpen))),
        Token::Class => ("class ", Padding::Before),
        Token::ClassName => ("class_name ", Padding::Before),
        Token::Extends => ("extends ", Padding::Before),
        Token::Is => ("is ", Padding::Before),
        Token::OnReady => ("onready ", Padding::Empty),
        Token::Tool => ("tool ", Padding::Empty),
        Token::Static => ("static ", Padding::Empty),
        Token::Export => ("export ", Padding::Empty),
        Token::SetGet => (" setget ", Padding::Empty),
        Token::Const => ("const ", Padding::Empty),
        Token::Var => ("var ", Padding::Before),
        Token::As => ("as ", Padding::Before),
        Token::Void => ("void ", Padding::Empty),
        Token::Enum => ("enum ", Padding::Empty),
        Token::Preload => ("preload", Padding::Empty),
        Token::Assert => ("assert ", Padding::Empty),
        Token::Yield => ("yield", Padding::After(Some(TokenType::ParenthesisOpen))),
        Token::Signal => ("signal ", Padding::Empty),
        Token::Breakpoint => ("breakpoint", Padding::After(None)),
        Token::Remote => ("remote ", Padding::Empty),
        Token::Sync => ("sync ", Padding::Empty),
        Token::Master => ("master ", Padding::Empty),
        Token::Slave => ("slave ", Padding::Empty),
        Token::Puppet => ("puppet ", Padding::Empty),
        Token::RemoteSync => ("remotesync ", Padding::Empty),
        Token::MasterSync => ("mastersync ", Padding::Empty),
        Token::PuppetSync => ("puppetsync ", Padding::Empty),
        Token::BracketOpen => ("[", Padding::Empty),
        Token::BracketClose => ("]", Padding::Empty),
        Token::BraceOpen => ("{", Padding::Empty),
        Token::BraceClose => ("}", Padding::Empty),
        Token::ParenthesisOpen => ("(", Padding::Empty),
        Token::ParenthesisClose => (")", Padding::Empty),
        Token::Comma => (", ", Padding::Empty),
        Token::Semicolon => (";", Padding::Empty),
        Token::Period => (".", Padding::Empty),
        Token::QuestionMark => ("?", Padding::Empty),
        Token::Colon => (":", Padding::After(None)),
        Token::Dollar => ("$", Padding::Empty),
        Token::ForwardArrow => ("->", Padding::Both(None)),
        Token::ConstPi => ("PI", Padding::Empty),
        Token::ConstTau => ("TAU", Padding::Empty),
        Token::Wildcard => ("_", Padding::Empty),
        Token::ConstInf => ("INF", Padding::Empty),
        Token::ConstNan => ("NAN", Padding::Empty),
        Token::SlaveSync => ("slavesync ", Padding::Empty),
        Token::Do => ("do ", Padding::Empty),
        Token::Case => ("case ", Padding::Empty),
        Token::Switch => ("switch ", Padding::Empty),
        Token::AmpersandAmpersand => ("&& ", Padding::Before),
        Token::PipePipe => ("|| ", Padding::Before),
        Token::Bang => ("!", Padding::Before),
        Token::StarStar => ("** ", Padding::Before),
        Token::StarStarEqual => ("**= ", Padding::Before),
        Token::When => ("when ", Padding::Before),
        Token::Await => ("await ", Padding::Before),
        Token::Namespace => ("namespace ", Padding::Before),
        Token::Super => ("super ", Padding::Both(Some(TokenType::Period))),
        Token::Trait => ("trait ", Padding::Before),
        Token::PeriodPeriod => ("..", Padding::Empty),
        Token::PeriodPeriodPeriod => ("...", Padding::Empty),
        Token::Underscore => ("_", Padding::Empty),
        Token::Backtick => ("`", Padding::Empty),
        Token::Abstract => ("abstract ", Padding::Empty),
        Token::Eof => ("", Padding::Empty),
        Token::Cursor => ("", Padding::Empty),
        Token::VcsConflictMarker => ("", Padding::Empty),
        Token::Empty => ("", Padding::Empty),
        Token::Percent => if prev == TokenType::Literal || prev == TokenType::Identifier
            || prev == TokenType::ParenthesisClose {
            ("%", Padding::Both(None))
        } else {
            ("%", Padding::Before)
        },
        _ => ("", Padding::Empty),
    }
}

/// The escape sequence for `c` inside a double-quoted string, or `c` itself.
pub open spec fn escape_char(c: char) -> Seq<char> {
    if c == '\\' { seq!['\\', '\\'] }
    else if c == '\x07' { seq!['\\', 'a'] }
    else if c == '\x08' { seq!['\\', 'b'] }
    else if c == '\x0C' { seq!['\\', 'f'] }
    else if c == '\n' { seq!['\\', 'n'] }
    else if c == '\r' { seq!['\\', 'r'] }
    else if c == '\t' { seq!['\\', 't'] }
    else if c == '\x0B' { seq!['\\', 'v'] }
    else if c == '\'' { seq!['\\', '\''] }
    else if c == '"' { seq!['\\', '"'] }
    else { seq![c] }
}

/// `s` with every character replaced by its escape sequence.
pub open spec fn escape_string(s: Seq<char>) -> Seq<char>
    decreases s.len(),
{
    if s.len() == 0 { s } else { escape_string(s.drop_last()) + escape_char(s.last()) }
}

/// Decimal digits of `n`.
pub open spec fn nat_text(n: nat) -> Seq<char>
    decreases n,
{
    if n < 10 {
        seq![(n + 48) as char]
    } else {
        nat_text(n / 10).push(((n % 10) + 48) as char)
    }
}

/// Decimal text of `i`, with a leading `-` when negative.
pub open spec fn int_text(i: int) -> Seq<char> {
    if i < 0 { seq!['-'] + nat_text((-i) as nat) } else { nat_text(i as nat) }
}

/// GDScript text of a literal value. Floating-point literals are written as their stored text.
pub open spec fn variant_text(v: Variant) -> Seq<char> {
    match v {
        Variant::Nil => "null"@,
        Variant::Bool(b) => if b { "true"@ } else { "false"@ },
        Variant::Int(i) => int_text(i as int),
        Variant::Float(f) => f@,
        Variant::String(s) => seq!['"'] + escape_string(s@) + seq!['"'],
        Variant::StringName(s) => seq!['&', '"'] + escape_string(s@) + seq!['"'],
        Variant::NodePath(s) => seq!['^', '"'] + escape_string(s@) + seq!['"'],
    }
}

/// `n` tab characters.
pub open spec fn tabs(n: nat) -> Seq<char> {
    Seq::new(n, |i: int| '\t')
}

/// Appends `s` to `v`.
fn push_str(v: &mut Vec<char>, s: &str)
    ensures
        final(v)@ == old(v)@ + s@,
{
    let cs = str_chars(s);
    let mut i: usize = 0;
    while i < cs.len()
        invariant
            i <= cs@.len(),
            cs@ == s@,
            v@ == old(v)@ + cs@.take(i as int),
        decreases cs@.len() - i,
    {
        v.push(cs[i]);
        i = i + 1;
        assert(v@ =~= old(v)@ + cs@.take(i as int));
    }
    assert(cs@.take(i as int) =~= cs@);
}

/// Appends `s` with its characters escaped.
fn push_escaped(v: &mut Vec<char>, s: &String)
    ensures
        final(v)@ == old(v)@ + escape_string(s@),
{
    let cs = str_chars(s.as_str());
    let mut i: usize = 0;
    while i < cs.len()
        invariant
            i <= cs@.len(),
            cs@ == s@,
            v@ == old(v)@ + escape_string(cs@.take(i as int)),
        decreases cs@.len() - i,
    {
        let c = cs[i];
        if c == '\\' { v.push('\\'); v.push('\\'); }
        else if c == '\x07' { v.push('\\'); v.push('a'); }
        else if c == '\x08' { v.push('\\'); v.push('b'); }
        else if c == '\x0C' { v.push('\\'); v.push('f'); }
        else if c == '\n' { v.push('\\'); v.push('n'); }
        else if c == '\r' { v.push('\\'); v.push('r'); }
        else if c == '\t' { v.push('\\'); v.push('t'); }
        else if c == '\x0B' { v.push('\\'); v.push('v'); }
        else if c == '\'' { v.push('\\'); v.push('\''); }
        else if c == '"' { v.push('\\'); v.push('"'); }
        else { v.push(c); }
        proof {
            assert(cs@.take(i + 1).drop_last() =~= cs@.take(i as int));
        }
        i = i + 1;
        assert(v@ =~= old(v)@ + escape_string(cs@.take(i as int)));
    }
    assert(cs@.take(i as int) =~= cs@);
}

/// Appends the decimal digits of `n`.
pub(crate) fn push_nat(v: &mut Vec<char>, n: u64)
    ensures
        final(v)@ == old(v)@ + nat_text(n as nat),
    decreases n,
{
    if n >= 10 {
        push_nat(v, n / 10);
    }
    let d = (n % 10) as u8;
    v.push((d + 48) as char);
    proof {
        if n < 10 {
            assert(d == n);
        }
    }
    assert(final(v)@ =~= old(v)@ + nat_text(n as nat));
}

/// Appends the decimal text of `i`.
fn push_int(v: &mut Vec<char>, i: i64)
    ensures
        final(v)@ == old(v)@ + int_text(i as int),
{
    if i < 0 {
        v.push('-');
        let m: u64 = if i == i64::MIN { 0x8000_0000_0000_0000u64 } else { (-i) as u64 };
        let ghost before = v@;
        push_nat(v, m);
        assert(v@ =~= old(v)@ + int_text(i as int));
    } else {
        push_nat(v, i as u64);
    }
}

/// Appends the GDScript text of a literal value.
fn push_variant(v: &mut Vec<char>, value: &Variant)
    ensures
        final(v)@ == old(v)@ + variant_text(*value),
{
    match value {
        Variant::Nil => push_str(v, "null"),
        Variant::Bool(b) => if *b { push_str(v, "true") } else { push_str(v, "false") },
        Variant::Int(i) => push_int(v, *i),
        Variant::Float(f) => push_str(v, f.as_str()),
        Variant::String(s) => {
            v.push('"');
            push_escaped(v, s);
            v.push('"');
        },
        Variant::StringName(s) => {
            v.push('&');
            v.push('"');
            push_escaped(v, s);
            v.push('"');
        },
        Variant::NodePath(s) => {
            v.push('^');
            v.push('"');
            push_escaped(v, s);
            v.push('"');
        },
    }
    assert(final(v)@ =~= old(v)@ + variant_text(*value));
}

/// State of the reconstruction: the text of finished lines, the current line, the indentation
/// depth and the kind of the previous token.
pub struct ReconState {
    pub text: Seq<char>,
    pub line: Seq<char>,
    pub indent: nat,
    pub prev: TokenType,
}

/// Whether a space ends `line`.
pub open spec fn ends_with_space(line: Seq<char>) -> bool {
    line.len() > 0 && line.last() == ' '
}

/// The state after one token `t`, followed by `next` (if any).
#[verifier::opaque]
pub open spec fn recon_step(s: ReconState, t: Token, next: Option<Token>) -> ReconState {
    match t {
        Token::Literal(v) => ReconState { line: s.line + variant_text(v), prev: TokenType::Literal, ..s },
        _ => {
            let s1 = match t {
                Token::Indent => ReconState { indent: s.indent + 1, ..s },
                Token::Dedent => ReconState { indent: (s.indent - 1) as nat, ..s },
                Token::Newline { .. } => ReconState {
                    text: s.text + tabs(s.indent) + s.line + seq!['\n'],
                    line: Seq::empty(),
                    prev: TokenType::Newline,
                    ..s
                },
                _ => s,
            };
            let (text, padding) = match t {
                Token::Annotation(ident) => (ident@, Padding::Empty),
                Token::Identifier(ident) => (ident@, Padding::Empty),
                _ => spec_token_text(t, s.prev),
            };
            let pad_before = (padding is Before || padding is Both) && !ends_with_space(s1.line)
                && !(s1.prev == TokenType::Newline || s1.prev == TokenType::Indent || s1.prev == TokenType::Dedent);
            let line2 = if pad_before { s1.line.push(' ') } else { s1.line };
            let line3 = line2 + text;
            let check = match padding {
                Padding::After(c) => Some(c),
                Padding::Both(c) => Some(c),
                _ => None,
            };
            let pad_after = check is Some && next is Some && !ends_with_space(line3)
                && !spec_is_newline_or_indent(next->0)
                && (check->0 is None || Some(spec_token_type(next->0)) != check->0);
            let line4 = if pad_after { line3.push(' ') } else { line3 };
            ReconState { line: line4, prev: spec_token_type(t), ..s1 }
        },
    }
}

/// One token raises the indentation depth by at most one.
proof fn lemma_recon_step_indent(s: ReconState, t: Token, next: Option<Token>)
    requires
        t is Dedent ==> s.indent > 0,
    ensures
        recon_step(s, t, next).indent <= s.indent + 1,
{
    reveal(recon_step);
}

/// The state after the first `n` tokens.
pub open spec fn recon_run(tokens: Seq<(Token, crate::gdscript::Span)>, n: nat) -> ReconState
    decreases n,
{
    if n == 0 || n > tokens.len() {
        ReconState { text: Seq::empty(), line: Seq::empty(), indent: 0, prev: TokenType::Newline }
    } else {
        let next = if n < tokens.len() { Some(tokens[n as int].0) } else { None };
        recon_step(recon_run(tokens, (n - 1) as nat), tokens[n - 1].0, next)
    }
}

/// The text reconstructed from `tokens`: the finished lines, then the current line (indented)
/// when it is not empty.
pub open spec fn spec_reconstruct(tokens: Seq<(Token, crate::gdscript::Span)>) -> Seq<char> {
    let s = recon_run(tokens, tokens.len());
    if s.line.len() > 0 { s.text + tabs(s.indent) + s.line } else { s.text }
}

/// Whether the tokens can be written back: no dedent without an open indentation level before
/// it, and no GDScript 1 built-in type or function token.
pub open spec fn reconstructible(tokens: Seq<(Token, crate::gdscript::Span)>) -> bool {
    &&& forall|i: int| 0 <= i < tokens.len() ==> !(#[trigger] tokens[i].0 is BuiltInType || tokens[i].0 is BuiltInFunc)
    &&& forall|i: int| 0 <= i < tokens.len() && (#[trigger] tokens[i].0) is Dedent ==> recon_run(tokens, i as nat).indent > 0
}

/// Appends `n` tabs and then `line`.
fn write_line(text: &mut Vec<char>, indent: usize, line: &Vec<char>)
    ensures
        final(text)@ == old(text)@ + tabs(indent as nat) + line@,
{
    let mut k: usize = 0;
    while k < indent
        invariant
            k <= indent,
            text@ == old(text)@ + tabs(k as nat),
        decreases indent - k,
    {
        text.push('\t');
        k = k + 1;
        assert(text@ =~= old(text)@ + tabs(k as nat));
    }
    let mut j: usize = 0;
    while j < line.len()
        invariant
            j <= line@.len(),
            text@ == old(text)@ + tabs(indent as nat) + line@.take(j as int),
        decreases line@.len() - j,
    {
        text.push(line[j]);
        j = j + 1;
        assert(text@ =~= old(text)@ + tabs(indent as nat) + line@.take(j as int));
    }
    assert(line@.take(j as int) =~= line@);
}

/// The reconstruction in progress.
struct TextReconstructor {
    script_text: Vec<char>,
    line: Vec<char>,
    indent: usize,
    prev_token: TokenType,
}

impl TextReconstructor {
    /// The state this reconstructor holds.
    closed spec fn state(&self) -> ReconState {
        ReconState {
            text: self.script_text@,
            line: self.line@,
            indent: self.indent as nat,
            prev: self.prev_token,
        }
    }

    /// Whether a space ends the current line.
    fn line_ends_with_space(&self) -> (r: bool)
        ensures
            r == ends_with_space(self.line@),
    {
        self.line.len() > 0 && self.line[self.line.len() - 1] == ' '
    }

    /// Ends the current line.
    fn handle_newline(&mut self)
        ensures
            final(self).state() == (ReconState {
                text: old(self).state().text + tabs(old(self).indent as nat) + old(self).line@ + seq!['\n'],
                line: Seq::empty(),
                prev: TokenType::Newline,
                ..old(self).state()
            }),
    {
        write_line(&mut self.script_text, self.indent, &self.line);
        self.script_text.push('\n');
        assert(self.script_text@ =~= old(self).script_text@ + tabs(old(self).indent as nat) + old(self).line@ + seq!['\n']);
        self.line = Vec::new();
        self.prev_token = TokenType::Newline;
        assert(self.line@ =~= Seq::<char>::empty());
    }

    /// Writes one token, `next` being the token after it.
    fn step(&mut self, token: &Token, next: Option<&Token>)
        requires
            !(*token is BuiltInType || *token is BuiltInFunc),
            *token is Dedent ==> old(self).indent > 0,
            old(self).indent < usize::MAX,
        ensures
            final(self).state() == recon_step(old(self).state(), *token, match next {
                Some(t) => Some(*t),
                None => None,
            }),
    {
        reveal(recon_step);
        if let Token::Literal(lit) = token {
            push_variant(&mut self.line, lit);
            self.prev_token = TokenType::Literal;
            return;
        }
        let prev = self.prev_token;
        let ghost s0 = self.state();
        match token {
            Token::Indent => {
                self.indent = self.indent + 1;
            },
            Token::Dedent => {
                self.indent = self.indent - 1;
            },
            Token::Newline { .. } => {
                self.handle_newline();
            },
            _ => {},
        }
        let ghost s1 = self.state();
        let (text, padding): (&str, Padding) = match token {
            Token::Annotation(ident) => (ident.as_str(), Padding::Empty),
            Token::Identifier(ident) => (ident.as_str(), Padding::Empty),
            _ => token_text(token, prev),
        };
        let pad_before = match padding {
            Padding::Before | Padding::Both(_) => true,
            _ => false,
        };
        if pad_before && !self.line_ends_with_space() && !(self.prev_token == TokenType::Newline
            || self.prev_token == TokenType::Indent || self.prev_token == TokenType::Dedent) {
            self.line.push(' ');
        }
        push_str(&mut self.line, text);
        let check = match padding {
            Padding::After(c) => Some(c),
            Padding::Both(c) => Some(c),
            _ => None,
        };
        if let Some(check_tk) = check {
            if let Some(next_tk) = next {
                let next_type = next_tk.typ();
                let next_token_isnt_check_token = match check_tk {
                    None => true,
                    Some(c) => next_type != c,
                };
                let next_token_is_not_newline = !(next_type == TokenType::Newline
                    || next_type == TokenType::Indent || next_type == TokenType::Dedent);
                if !self.line_ends_with_space() && next_token_is_not_newline && next_token_isnt_check_token {
                    self.line.push(' ');
                }
            }
        }
        self.prev_token = token.typ();
    }
}

/// Reconstructs GDScript text from a series of tokens: each token's text with spacing around
/// operators and keywords, a line break for each newline token, lines indented with one tab per
/// open indentation level.
pub fn reconstruct_script_text(tokens: &[Spanned<Token>]) -> (r: String)
    requires
        reconstructible(tokens@),
    ensures
        r@ == spec_reconstruct(tokens@),
{
    let mut reconstructor = TextReconstructor {
        script_text: Vec::new(),
        line: Vec::new(),
        indent: 0,
        prev_token: TokenType::Newline,
    };
    let mut i: usize = 0;
    while i < tokens.len()
        invariant
            i <= tokens@.len(),
            reconstructible(tokens@),
            reconstructor.state() == recon_run(tokens@, i as nat),
            reconstructor.indent <= i,
        decreases tokens@.len() - i,
    {
        let next = if i + 1 < tokens.len() { Some(&tokens[i + 1].0) } else { None };
        proof {
            assert(!(tokens@[i as int].0 is BuiltInType || tokens@[i as int].0 is BuiltInFunc));
        }
        proof {
            lemma_recon_step_indent(recon_run(tokens@, i as nat), tokens@[i as int].0,
                if i + 1 < tokens@.len() { Some(tokens@[i + 1].0) } else { None });
        }
        reconstructor.step(&tokens[i].0, next);
        i = i + 1;
    }
    if reconstructor.line.len() > 0 {
        write_line(&mut reconstructor.script_text, reconstructor.indent, &reconstructor.line);
    }
    string_from_chars(reconstructor.script_text.as_slice())
}

/// The decimal text of `n` is made of digits whose value is `n`.
pub(crate) proof fn lemma_nat_text_value(n: nat)
    ensures
        nat_text(n).len() >= 1,
        all_digits(nat_text(n), dec_dv()),
        digits_value(nat_text(n), 10, dec_dv()) == n,
    decreases n,
{
    let t = nat_text(n);
    if n < 10 {
        let c = (n + 48) as char;
        assert(c as int == n + 48);
        assert(t.drop_last() =~= Seq::<char>::empty());
        assert(is_digit_char(c));
        assert(dec_dv()(t[0]) >= 0);
        assert(t.last() == c);
        assert(dec_dv()(c) == n);
        assert(digits_value(t.drop_last(), 10, dec_dv()) == 0);
    } else {
        lemma_nat_text_value(n / 10);
        let c = ((n % 10) + 48) as char;
        assert(c as int == n % 10 + 48);
        assert(t.drop_last() =~= nat_text(n / 10));
        assert(t.last() == c);
        assert forall|i: int| 0 <= i < t.len() implies #[trigger] dec_dv()(t[i]) >= 0 by {
            if i < t.len() - 1 {
                assert(t[i] == nat_text(n / 10)[i]);
            }
        }
        assert(is_digit_char(c));
        assert(dec_dv()(c) == n % 10);
        assert(digits_value(t, 10, dec_dv()) == (n / 10) * 10 + n % 10);
    }
}

/// Integer literals are written back as text that `to_int` reads as the same value (all but
/// the smallest `i64`, whose digits `to_int` cannot hold).
pub proof fn law_int_text_reads_back(i: i64)
    requires
        i != i64::MIN,
    ensures
        to_int_accepts(int_text(i as int)),
        spec_to_int(int_text(i as int)) == i,
{
    let n: nat = if i < 0 { (-i) as nat } else { i as nat };
    let d = nat_text(n);
    lemma_nat_text_value(n);
    lemma_first_non_digit(d, dec_dv());
    if first_non_digit(d, dec_dv()) < d.len() {
        assert(dec_dv()(d[first_non_digit(d, dec_dv())]) >= 0);
    }
    assert(d.take(d.len() as int) =~= d);
    let s = int_text(i as int);
    if i < 0 {
        assert(s[0] == '-');
        assert(is_number_start(s[0]));
        assert(first_number_start(s) == 0);
        assert(s.skip(1) =~= d);
    } else {
        assert(is_digit_char(d[0])) by {
            assert(dec_dv()(d[0]) >= 0);
        }
        assert(first_number_start(s) == 0);
        assert(s.skip(0) =~= d);
    }
    assert(to_int_digits(s) == d);
}

/// The escapes of a text, from its first character on.
proof fn lemma_escape_string_front(s: Seq<char>)
    requires
        s.len() > 0,
    ensures
        escape_string(s) == escape_char(s[0]) + escape_string(s.skip(1)),
    decreases s.len(),
{
    if s.len() == 1 {
        assert(s.drop_last() =~= Seq::<char>::empty());
        assert(s.skip(1) =~= Seq::<char>::empty());
        assert(escape_string(s.skip(1)) =~= Seq::<char>::empty());
        assert(escape_string(s.drop_last()) =~= Seq::<char>::empty());
        assert(Seq::<char>::empty() + escape_char(s[0]) =~= escape_char(s[0]) + Seq::<char>::empty());
    } else {
        lemma_escape_string_front(s.drop_last());
        assert(s.drop_last().skip(1) =~= s.skip(1).drop_last());
        assert(s.skip(1).last() == s.last());
        assert(s.drop_last()[0] == s[0]);
        let a = escape_char(s[0]);
        let m = escape_string(s.skip(1).drop_last());
        let z = escape_char(s.last());
        assert(a + m + z =~= a + (m + z));
    }
}

/// A string value that the reconstructor writes between double quotes reads back as that
/// value: decoding the escaped text and the closing quote gives the value, and ends at that quote.
pub proof fn law_escaped_string_reads_back(s: Seq<char>)
    ensures
        string_body(escape_string(s) + seq!['"'], false, '"', false)
            == Some((s, (escape_string(s).len() + 1) as nat)),
    decreases s.len(),
{
    let cs = escape_string(s) + seq!['"'];
    lemma_string_body_step(cs, false, '"', false);
    if s.len() == 0 {
        assert(escape_string(s) =~= Seq::<char>::empty());
        assert(cs =~= seq!['"']);
        assert(s =~= Seq::<char>::empty());
    } else {
        let c = s[0];
        let e = escape_char(c);
        let rest = escape_string(s.skip(1)) + seq!['"'];
        lemma_escape_string_front(s);
        assert(cs =~= e + rest);
        law_escaped_string_reads_back(s.skip(1));
        lemma_string_body_step(rest, false, '"', false);
        if e.len() == 2 {
            assert(cs[0] == '\\');
            assert(cs.skip(1)[0] == e[1]);
            assert(simple_escape(e[1]) == Some(c));
            assert(cs.skip(2) =~= rest);
            assert(escape_step(cs.skip(1), false, '"') == Some((seq![c], 1nat)));
        } else {
            assert(e =~= seq![c]);
            assert(cs[0] == c);
            assert(cs.skip(1) =~= rest);
        }
        assert(seq![c] + s.skip(1) =~= s);
    }
}


/// The text written back for a single word or constant token.
proof fn lemma_single_token_text(k: Token, span: crate::gdscript::Span)
    requires
        !(k is Indent || k is Dedent || k is Newline || k is Annotation || k is Identifier),
    ensures
        ({
            let line = match k {
                Token::Literal(v) => variant_text(v),
                _ => spec_token_text(k, TokenType::Newline).0,
            };
            spec_reconstruct(seq![(k, span)]) == if line.len() > 0 { line } else { Seq::empty() }
        }),
{
    reveal(recon_step);
    let ts = seq![(k, span)];
    let init = ReconState { text: Seq::empty(), line: Seq::empty(), indent: 0, prev: TokenType::Newline };
    assert(recon_run(ts, 0) == init);
    assert(recon_run(ts, 1) == recon_step(init, k, None));
    assert(tabs(0) =~= Seq::<char>::empty());
    let s1 = recon_run(ts, 1);
    assert(s1.text =~= Seq::<char>::empty());
    if s1.line.len() > 0 {
        assert(s1.text + tabs(s1.indent) + s1.line =~= s1.line);
    }
    match k {
        Token::Literal(v) => {
            assert(s1.line =~= variant_text(v));
        },
        _ => {
            assert(s1.line =~= spec_token_text(k, TokenType::Newline).0);
        },
    }
}

/// The text written back for one keyword, or for `true`, `false` or `null`, is its spelling,
/// perhaps followed by a space.
pub proof fn law_keyword_written_back(w: Seq<char>, has_when: bool, span: crate::gdscript::Span)
    requires
        spec_keyword(w, has_when) is Some,
    ensures
        ({
            let text = spec_reconstruct(seq![(spec_keyword(w, has_when)->0, span)]);
            text == w || text == w.push(' ')
        }),
{
    lemma_single_token_text(spec_keyword(w, has_when)->0, span);
    reveal_strlit("INF");
    reveal_strlit("NAN");
    reveal_strlit("PI");
    reveal_strlit("TAU");
    reveal_strlit("_");
    reveal_strlit("abstract ");
    reveal_strlit("and");
    reveal_strlit("and ");
    reveal_strlit("as");
    reveal_strlit("as ");
    reveal_strlit("assert");
    reveal_strlit("assert ");
    reveal_strlit("await");
    reveal_strlit("await ");
    reveal_strlit("break");
    reveal_strlit("breakpoint");
    reveal_strlit("case ");
    reveal_strlit("class");
    reveal_strlit("class ");
    reveal_strlit("class_name");
    reveal_strlit("class_name ");
    reveal_strlit("const");
    reveal_strlit("const ");
    reveal_strlit("continue");
    reveal_strlit("do ");
    reveal_strlit("elif");
    reveal_strlit("elif ");
    reveal_strlit("else");
    reveal_strlit("enum");
    reveal_strlit("enum ");
    reveal_strlit("export ");
    reveal_strlit("extends");
    reveal_strlit("extends ");
    reveal_strlit("false");
    reveal_strlit("for");
    reveal_strlit("for ");
    reveal_strlit("func");
    reveal_strlit("if");
    reveal_strlit("if ");
    reveal_strlit("in");
    reveal_strlit("in ");
    reveal_strlit("is");
    reveal_strlit("is ");
    reveal_strlit("master ");
    reveal_strlit("mastersync ");
    reveal_strlit("match");
    reveal_strlit("namespace");
    reveal_strlit("namespace ");
    reveal_strlit("not");
    reveal_strlit("null");
    reveal_strlit("onready ");
    reveal_strlit("or");
    reveal_strlit("or ");
    reveal_strlit("pass");
    reveal_strlit("preload");
    reveal_strlit("puppet ");
    reveal_strlit("puppetsync ");
    reveal_strlit("remote ");
    reveal_strlit("remotesync ");
    reveal_strlit("return");
    reveal_strlit("self");
    reveal_strlit("signal");
    reveal_strlit("signal ");
    reveal_strlit("slave ");
    reveal_strlit("slavesync ");
    reveal_strlit("static");
    reveal_strlit("static ");
    reveal_strlit("super");
    reveal_strlit("super ");
    reveal_strlit("switch ");
    reveal_strlit("sync ");
    reveal_strlit("tool ");
    reveal_strlit("trait");
    reveal_strlit("trait ");
    reveal_strlit("true");
    reveal_strlit("var");
    reveal_strlit("var ");
    reveal_strlit("void");
    reveal_strlit("void ");
    reveal_strlit("when");
    reveal_strlit("when ");
    reveal_strlit("while");
    reveal_strlit("while ");
    reveal_strlit("yield");
}


/// A keyword written back, then read by the tokenizer from the start of a token, reads as a word
/// spelled exactly as the keyword, and so as the same keyword.
pub proof fn law_keyword_round_trip(w: Seq<char>, b: GDScriptBuild, span: crate::gdscript::Span, after_operand: bool,
    paren_top: Option<char>, t: Token)
    requires
        spec_keyword(w, b.has_when) is Some,
    ensures
        ({
            let k = spec_keyword(w, b.has_when)->0;
            let text = spec_reconstruct(seq![(k, span)]);
            &&& token_start(text[0], char_or_nul(text, 1), char_or_nul(text, 2), b, after_operand) is Word
            &&& 1 + xid_run(text.drop_first()) == w.len()
            &&& reads_as(t, TokenStart::Word, text.take(w.len() as int), text[0], b, paren_top) ==> t == k
        }),
{
    let k = spec_keyword(w, b.has_when)->0;
    law_keyword_written_back(w, b.has_when, span);
    let text = spec_reconstruct(seq![(k, span)]);
    if text == w {
        let follow = Seq::<char>::empty();
        assert(w + follow =~= w);
        law_keyword_spelling_reads_back(w, follow, b, after_operand, paren_top, t);
    } else {
        let follow = seq![' '];
        assert(w + follow =~= w.push(' '));
        law_keyword_spelling_reads_back(w, follow, b, after_operand, paren_top, t);
    }
}


/// Every operator and punctuation token is written back as its own spelling, perhaps followed by a
/// space, and the tokenizer reads that text back as the same token (`...` only where the build has
/// variadic functions).
pub proof fn law_operator_written_back(t: Token, prev: TokenType, b: GDScriptBuild, after_operand: bool)
    requires
        operator_text(t) is Some,
        t == Token::PeriodPeriodPeriod ==> b.has_variadic_functions,
    ensures
        ({
            let x = operator_text(t)->0;
            let w = spec_token_text(t, prev).0;
            &&& w == x || w == x.push(' ')
            &&& match token_start(w[0], char_or_nul(w, 1), char_or_nul(w, 2), b, after_operand) {
                TokenStart::Fixed(u) => u == t,
                TokenStart::Marker(u) => u == t,
                TokenStart::Closing(_, u) => u == t,
                _ => false,
            }
        }),
{
    match t {
        Token::Tilde => { reveal_strlit("~ "); },
        Token::Comma => { reveal_strlit(", "); },
        Token::Colon => { reveal_strlit(":"); },
        Token::Semicolon => { reveal_strlit(";"); },
        Token::Dollar => { reveal_strlit("$"); },
        Token::QuestionMark => { reveal_strlit("?"); },
        Token::Backtick => { reveal_strlit("`"); },
        Token::ParenthesisOpen => { reveal_strlit("("); },
        Token::BracketOpen => { reveal_strlit("["); },
        Token::BraceOpen => { reveal_strlit("{"); },
        Token::ParenthesisClose => { reveal_strlit(")"); },
        Token::BracketClose => { reveal_strlit("]"); },
        Token::BraceClose => { reveal_strlit("}"); },
        Token::Bang => { reveal_strlit("!"); },
        Token::BangEqual => { reveal_strlit("!= "); },
        Token::Period => { reveal_strlit("."); },
        Token::PeriodPeriod => { reveal_strlit(".."); },
        Token::PeriodPeriodPeriod => { reveal_strlit("..."); },
        Token::Plus => { reveal_strlit("+ "); },
        Token::PlusEqual => { reveal_strlit("+= "); },
        Token::Minus => { reveal_strlit("- "); },
        Token::MinusEqual => { reveal_strlit("-= "); },
        Token::ForwardArrow => { reveal_strlit("->"); },
        Token::Star => { reveal_strlit("* "); },
        Token::StarEqual => { reveal_strlit("*= "); },
        Token::StarStar => { reveal_strlit("** "); },
        Token::StarStarEqual => { reveal_strlit("**= "); },
        Token::Slash => { reveal_strlit("/ "); },
        Token::SlashEqual => { reveal_strlit("/= "); },
        Token::Percent => { reveal_strlit("%"); },
        Token::PercentEqual => { reveal_strlit("%= "); },
        Token::Caret => { reveal_strlit("^ "); },
        Token::CaretEqual => { reveal_strlit("^= "); },
        Token::Ampersand => { reveal_strlit("& "); },
        Token::AmpersandAmpersand => { reveal_strlit("&& "); },
        Token::AmpersandEqual => { reveal_strlit("&= "); },
        Token::Pipe => { reveal_strlit("| "); },
        Token::PipePipe => { reveal_strlit("|| "); },
        Token::PipeEqual => { reveal_strlit("|= "); },
        Token::Equal => { reveal_strlit("= "); },
        Token::EqualEqual => { reveal_strlit("== "); },
        Token::Less => { reveal_strlit("< "); },
        Token::LessEqual => { reveal_strlit("<= "); },
        Token::LessLess => { reveal_strlit("<< "); },
        Token::LessLessEqual => { reveal_strlit("<<= "); },
        Token::Greater => { reveal_strlit("> "); },
        Token::GreaterEqual => { reveal_strlit(">= "); },
        Token::GreaterGreater => { reveal_strlit(">> "); },
        Token::GreaterGreaterEqual => { reveal_strlit(">>= "); },
        _ => {},
    }
}

} // verus!
