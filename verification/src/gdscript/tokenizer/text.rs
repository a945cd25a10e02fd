//! The GDScript text tokenizer.
use vstd::prelude::*;
use crate::engine_build::GDScriptBuild;
use crate::gdscript::{Position, Span, Spanned, Token, TokenType, spec_token_type, spec_can_precede_bin_op};
use crate::util::{NPeekable, str_chars, string_from_chars, push_char};
use vstd::utf8::encode_utf8;
use crate::string::{hex_to_int_accepts, bin_to_int_accepts, to_int_accepts, is_godot_whitespace, spec_is_godot_whitespace, spec_hex_to_int, spec_bin_to_int, spec_to_int, hex_to_int_checked, bin_to_int_checked, to_int_checked, spec_is_xid_continue, spec_is_godot_xid_start, is_xid_continue, GodotUnicodeXID};
use crate::variant::Variant;
use crate::private::Sealed;
use crate::gdscript::tokenizer::Tokenizer;

verus! {

/// An error token carrying `msg`.
fn error_token(msg: &str) -> (r: Token)
    ensures
        r matches Token::Error(Variant::String(m)) && m@ == msg@,
{
    Token::Error(Variant::String(msg.to_owned()))
}

/// The error reported for an invisible text-direction control character `ch` in a string
/// literal (`raw` for an r-string).
pub open spec fn direction_control_message(ch: char, raw: bool) -> Seq<char> {
    if raw {
        "Invisible text direction control character present in the string, use regular string literal instead of r-string."@
    } else {
        "Invisible text direction control character present in the string, escape it (\"\\u"@ + hex_lower(ch as u32)
            + "\") to avoid confusion."@
    }
}

/// How many pairs of adjacent underscores lie in `s[lo..hi]`.
pub open spec fn adjacent_underscores(s: Seq<char>, lo: int, hi: int) -> nat
    decreases hi - lo,
{
    if hi <= lo + 1 {
        0
    } else {
        adjacent_underscores(s, lo, hi - 1) + (if s[hi - 2] == '_' && s[hi - 1] == '_' { 1nat } else { 0nat })
    }
}

/// The error reported for adjacent underscores in a numeric literal.
pub open spec fn underscore_message(new_parsing: bool) -> Seq<char> {
    if new_parsing {
        "Multiple underscores cannot be adjacent in a numeric literal."@
    } else {
        "Only one underscore can be used as a numeric separator."@
    }
}

/// The innermost open indentation width, or 0 when none is open.
pub open spec fn innermost_indent(stack: Seq<usize>) -> usize {
    if stack.len() > 0 { stack.last() } else { 0 }
}

/// `stack` without the levels wider than `width` at its top.
pub open spec fn pop_wider(stack: Seq<usize>, width: usize) -> Seq<usize>
    decreases stack.len(),
{
    if stack.len() > 0 && stack.last() > width { pop_wider(stack.drop_last(), width) } else { stack }
}

/// Whether unindenting to `width` lands on no open level.
pub open spec fn unindent_mismatch(stack: Seq<usize>, width: usize) -> bool {
    width < innermost_indent(stack) && innermost_indent(pop_wider(stack, width)) != width
}

/// The open levels after a line indented to `width`.
pub open spec fn indent_levels_after(stack: Seq<usize>, width: usize) -> Seq<usize> {
    if width > innermost_indent(stack) {
        stack.push(width)
    } else if width == innermost_indent(stack) {
        stack
    } else if unindent_mismatch(stack, width) {
        pop_wider(stack, width).push(width)
    } else {
        pop_wider(stack, width)
    }
}

/// The change in pending indent tokens (negative: dedent tokens) after a line indented to `width`.
pub open spec fn pending_change(stack: Seq<usize>, width: usize) -> int {
    if width > innermost_indent(stack) {
        1
    } else if width == innermost_indent(stack) {
        0
    } else {
        pop_wider(stack, width).len() - stack.len()
    }
}

/// The error reported for indentation made of `used` where `expected` was used before.
pub open spec fn indent_char_message(used: char, expected: char) -> Seq<char> {
    "Used "@ + spec_indent_char_name(used) + " character for indentation instead of "@
        + spec_indent_char_name(expected) + " as used before in the file."@
}

/// Whether `c` counts as indentation: a space or a tab.
pub open spec fn is_indent_space(c: char) -> bool {
    c == ' ' || c == '\t'
}

/// The width of the indentation `s`: a tab counts as `TAB_SIZE` columns, a space as one.
pub open spec fn indent_width(s: Seq<char>) -> nat
    decreases s.len(),
{
    if s.len() == 0 {
        0
    } else {
        indent_width(s.drop_last()) + (if s.last() == '\t' { 4nat } else { 1nat })
    }
}

/// How the tokenizer reads a token from its first character.
pub enum TokenStart {
    /// A numeric literal.
    Number,
    /// A string, string-name or node-path literal.
    Text,
    /// An identifier, a keyword or `_`.
    Word,
    /// An annotation (`@name`).
    Annotation,
    /// This operator or punctuation token, spelled by `operator_text`.
    Fixed(Token),
    /// This doubled operator, or a version-control conflict marker when the character repeats.
    Marker(Token),
    /// A closing bracket: this token when the innermost open bracket is the given opening one,
    /// otherwise an error.
    Closing(char, Token),
    /// No token starts with this character: an error.
    Invalid,
}

/// Whether `c` is an ASCII decimal digit.
pub open spec fn is_ascii_digit(c: char) -> bool {
    '0' <= c && c <= '9'
}

/// Which token kind starts with `ch`, followed by `next` and `next1` (`'\0'` past the end), under
/// the rules of build `b`. `after_operand` is whether the previous token can end an operand,
/// which makes a sign an operator rather than part of a number.
pub open spec fn token_start(ch: char, next: char, next1: char, b: GDScriptBuild, after_operand: bool) -> TokenStart {
    let quote_next = next == '"' || next == '\'';
    if is_ascii_digit(ch) {
        TokenStart::Number
    } else if b.has_raw_strings && ch == 'r' && quote_next {
        TokenStart::Text
    } else if spec_is_godot_xid_start(ch) {
        TokenStart::Word
    } else if ch == '"' || ch == '\'' {
        TokenStart::Text
    } else if ch == '@' {
        TokenStart::Annotation
    } else if ch == '~' {
        TokenStart::Fixed(Token::Tilde)
    } else if ch == ',' {
        TokenStart::Fixed(Token::Comma)
    } else if ch == ':' {
        TokenStart::Fixed(Token::Colon)
    } else if ch == ';' {
        TokenStart::Fixed(Token::Semicolon)
    } else if ch == '$' {
        TokenStart::Fixed(Token::Dollar)
    } else if ch == '?' {
        TokenStart::Fixed(Token::QuestionMark)
    } else if ch == '`' {
        TokenStart::Fixed(Token::Backtick)
    } else if ch == '(' {
        TokenStart::Fixed(Token::ParenthesisOpen)
    } else if ch == '[' {
        TokenStart::Fixed(Token::BracketOpen)
    } else if ch == '{' {
        TokenStart::Fixed(Token::BraceOpen)
    } else if ch == ')' {
        TokenStart::Closing('(', Token::ParenthesisClose)
    } else if ch == ']' {
        TokenStart::Closing('[', Token::BracketClose)
    } else if ch == '}' {
        TokenStart::Closing('{', Token::BraceClose)
    } else if ch == '!' {
        if next == '=' { TokenStart::Fixed(Token::BangEqual) } else { TokenStart::Fixed(Token::Bang) }
    } else if ch == '.' {
        if next == '.' {
            if b.has_variadic_functions && next1 == '.' {
                TokenStart::Fixed(Token::PeriodPeriodPeriod)
            } else {
                TokenStart::Fixed(Token::PeriodPeriod)
            }
        } else if is_ascii_digit(next) {
            TokenStart::Number
        } else {
            TokenStart::Fixed(Token::Period)
        }
    } else if ch == '+' {
        if next == '=' {
            TokenStart::Fixed(Token::PlusEqual)
        } else if b.has_literal_sign_handling && is_ascii_digit(next) && !after_operand {
            TokenStart::Number
        } else {
            TokenStart::Fixed(Token::Plus)
        }
    } else if ch == '-' {
        if next == '=' {
            TokenStart::Fixed(Token::MinusEqual)
        } else if b.has_literal_sign_handling && is_ascii_digit(next) && !after_operand {
            TokenStart::Number
        } else if next == '>' {
            TokenStart::Fixed(Token::ForwardArrow)
        } else {
            TokenStart::Fixed(Token::Minus)
        }
    } else if ch == '*' {
        if next == '=' {
            TokenStart::Fixed(Token::StarEqual)
        } else if next == '*' {
            if next1 == '=' { TokenStart::Fixed(Token::StarStarEqual) } else { TokenStart::Fixed(Token::StarStar) }
        } else {
            TokenStart::Fixed(Token::Star)
        }
    } else if ch == '/' {
        if next == '=' { TokenStart::Fixed(Token::SlashEqual) } else { TokenStart::Fixed(Token::Slash) }
    } else if ch == '%' {
        if next == '=' { TokenStart::Fixed(Token::PercentEqual) } else { TokenStart::Fixed(Token::Percent) }
    } else if ch == '^' {
        if next == '=' {
            TokenStart::Fixed(Token::CaretEqual)
        } else if quote_next {
            TokenStart::Text
        } else {
            TokenStart::Fixed(Token::Caret)
        }
    } else if ch == '&' {
        if next == '&' {
            TokenStart::Fixed(Token::AmpersandAmpersand)
        } else if next == '=' {
            TokenStart::Fixed(Token::AmpersandEqual)
        } else if quote_next {
            TokenStart::Text
        } else {
            TokenStart::Fixed(Token::Ampersand)
        }
    } else if ch == '|' {
        if next == '|' {
            TokenStart::Fixed(Token::PipePipe)
        } else if next == '=' {
            TokenStart::Fixed(Token::PipeEqual)
        } else {
            TokenStart::Fixed(Token::Pipe)
        }
    } else if ch == '=' {
        if next == '=' { TokenStart::Marker(Token::EqualEqual) } else { TokenStart::Fixed(Token::Equal) }
    } else if ch == '<' {
        if next == '=' {
            TokenStart::Fixed(Token::LessEqual)
        } else if next == '<' {
            if next1 == '=' { TokenStart::Fixed(Token::LessLessEqual) } else { TokenStart::Marker(Token::LessLess) }
        } else {
            TokenStart::Fixed(Token::Less)
        }
    } else if ch == '>' {
        if next == '=' {
            TokenStart::Fixed(Token::GreaterEqual)
        } else if next == '>' {
            if next1 == '=' {
                TokenStart::Fixed(Token::GreaterGreaterEqual)
            } else {
                TokenStart::Marker(Token::GreaterGreater)
            }
        } else {
            TokenStart::Fixed(Token::Greater)
        }
    } else {
        TokenStart::Invalid
    }
}

/// Whether `t`, read from `text` (which starts with `ch`), is what a token of kind `k` can be.
/// `paren_top` is the innermost open bracket before the token.
pub open spec fn reads_as(t: Token, k: TokenStart, text: Seq<char>, ch: char, b: GDScriptBuild, paren_top: Option<char>) -> bool {
    match k {
        TokenStart::Number => (t matches Token::Literal(v) && (v is Int || v is Float)) || t is Error,
        TokenStart::Text => (t matches Token::Literal(v) && (v is String || v is StringName || v is NodePath))
            || t is Error,
        TokenStart::Word => is_word_token(t, text, b.has_when),
        TokenStart::Annotation => t matches Token::Annotation(s) && s@ == text,
        TokenStart::Fixed(x) => t == x,
        TokenStart::Marker(x) => (t == x && text.len() == 2) || (t == Token::VcsConflictMarker && text.len() >= 7),
        TokenStart::Closing(open, x) => text == seq![ch] && if paren_top == Some(open) { t == x } else { t is Error },
        TokenStart::Invalid => text == seq![ch] && error_with(t, invalid_character_text(ch,
            b.has_improved_invalid_character_error, b.allow_zwsp_as_whitespace)),
    }
}

/// The character at index `i` of `s`, or `'\0'` past the end.
pub open spec fn char_or_nul(s: Seq<char>, i: int) -> char {
    if 0 <= i < s.len() { s[i] } else { '\0' }
}

/// The innermost open bracket of `stack`, if any.
pub open spec fn innermost_paren(stack: Seq<char>) -> Option<char> {
    if stack.len() > 0 { Some(stack.last()) } else { None }
}

/// Whether a token of kind `t` can end an operand, so that a following sign is an operator.
pub open spec fn ends_operand(t: TokenType) -> bool {
    t == TokenType::Identifier || t == TokenType::Literal || t == TokenType::_Self
        || t == TokenType::BracketClose || t == TokenType::BraceClose
        || t == TokenType::ParenthesisClose || t == TokenType::ConstPi || t == TokenType::ConstTau
        || t == TokenType::ConstInf || t == TokenType::ConstNan
}

/// Whether `c` begins content on a line: not a space, tab, line break or comment.
pub open spec fn starts_content(c: char) -> bool {
    !(c == ' ' || c == '\t' || c == '\r' || c == '\n' || c == '#')
}

/// How many spaces and tabs `s` starts with.
pub open spec fn leading_indent(s: Seq<char>) -> nat
    decreases s.len(),
{
    if s.len() > 0 && is_indent_space(s[0]) { 1 + leading_indent(s.drop_first()) } else { 0 }
}

/// A maximal leading run of spaces and tabs is what `leading_indent` counts.
proof fn lemma_leading_indent(s: Seq<char>, m: int)
    requires
        0 <= m <= s.len(),
        forall|i: int| 0 <= i < m ==> #[trigger] is_indent_space(s[i]),
        m == s.len() || !is_indent_space(s[m]),
    ensures
        leading_indent(s) == m,
    decreases m,
{
    if m > 0 {
        assert forall|i: int| 0 <= i < m - 1 implies #[trigger] is_indent_space(s.drop_first()[i]) by {
            assert(s.drop_first()[i] == s[i + 1]);
        }
        if m < s.len() {
            assert(s.drop_first()[m - 1] == s[m]);
        }
        lemma_leading_indent(s.drop_first(), m - 1);
    }
}

/// Keywords are at least two characters long, start with a letter and hold only letters and `_`.
proof fn lemma_keyword_shape(w: Seq<char>, has_when: bool)
    requires
        spec_keyword(w, has_when) is Some,
    ensures
        w.len() >= 2,
        ('a' <= w[0] && w[0] <= 'z') || ('A' <= w[0] && w[0] <= 'Z'),
        forall|i: int| 0 <= i < w.len() ==> ('a' <= #[trigger] w[i] && w[i] <= 'z') || ('A' <= w[i] && w[i] <= 'Z')
            || w[i] == '_',
{
    reveal_strlit("as");
    reveal_strlit("and");
    reveal_strlit("assert");
    reveal_strlit("await");
    reveal_strlit("break");
    reveal_strlit("breakpoint");
    reveal_strlit("class");
    reveal_strlit("class_name");
    reveal_strlit("const");
    reveal_strlit("continue");
    reveal_strlit("elif");
    reveal_strlit("else");
    reveal_strlit("enum");
    reveal_strlit("extends");
    reveal_strlit("for");
    reveal_strlit("func");
    reveal_strlit("if");
    reveal_strlit("in");
    reveal_strlit("is");
    reveal_strlit("match");
    reveal_strlit("namespace");
    reveal_strlit("not");
    reveal_strlit("or");
    reveal_strlit("pass");
    reveal_strlit("preload");
    reveal_strlit("return");
    reveal_strlit("self");
    reveal_strlit("signal");
    reveal_strlit("static");
    reveal_strlit("super");
    reveal_strlit("trait");
    reveal_strlit("var");
    reveal_strlit("void");
    reveal_strlit("while");
    reveal_strlit("when");
    reveal_strlit("yield");
    reveal_strlit("INF");
    reveal_strlit("NAN");
    reveal_strlit("PI");
    reveal_strlit("TAU");
    reveal_strlit("true");
    reveal_strlit("false");
    reveal_strlit("null");
}

/// A maximal leading run of identifier characters is what `xid_run` counts.
proof fn lemma_xid_run(s: Seq<char>, m: int)
    requires
        0 <= m <= s.len(),
        forall|i: int| 0 <= i < m ==> #[trigger] spec_is_xid_continue(s[i]),
        m == s.len() || !spec_is_xid_continue(s[m]),
    ensures
        xid_run(s) == m,
    decreases m,
{
    if m > 0 {
        assert forall|i: int| 0 <= i < m - 1 implies #[trigger] spec_is_xid_continue(s.drop_first()[i]) by {
            assert(s.drop_first()[i] == s[i + 1]);
        }
        if m < s.len() {
            assert(s.drop_first()[m - 1] == s[m]);
        }
        lemma_xid_run(s.drop_first(), m - 1);
    }
}

/// A keyword spelled at the start of a token, and not followed by a character that continues a
/// word, is read as a word token whose text is exactly the spelling, and that token is the keyword.
pub proof fn law_keyword_spelling_reads_back(w: Seq<char>, follow: Seq<char>, b: GDScriptBuild, after_operand: bool,
    paren_top: Option<char>, t: Token)
    requires
        spec_keyword(w, b.has_when) is Some,
        follow.len() == 0 || !spec_is_xid_continue(follow[0]),
    ensures
        ({
            let s = w + follow;
            &&& token_start(s[0], char_or_nul(s, 1), char_or_nul(s, 2), b, after_operand) is Word
            &&& 1 + xid_run(s.drop_first()) == w.len()
            &&& reads_as(t, TokenStart::Word, s.take(w.len() as int), s[0], b, paren_top)
                ==> t == spec_keyword(w, b.has_when)->0
        }),
{
    lemma_keyword_shape(w, b.has_when);
    let s = w + follow;
    assert(s[0] == w[0]);
    assert(s[1] == w[1]);
    let d = s.drop_first();
    assert forall|i: int| 0 <= i < w.len() - 1 implies #[trigger] spec_is_xid_continue(d[i]) by {
        assert(d[i] == w[i + 1]);
    }
    if follow.len() > 0 {
        assert(d[w.len() - 1] == follow[0]);
    }
    lemma_xid_run(d, w.len() - 1);
    assert(s.take(w.len() as int) =~= w);
    assert(all_ascii(w)) by {
        assert forall|i: int| 0 <= i < w.len() implies (#[trigger] w[i] as u32) < 128 by {
        }
    }
    assert(!(w.len() == 1 && w[0] == '_'));
}

/// How many characters from index `i` of `s` on are digits of `base` or `_`.
pub open spec fn digit_run(s: Seq<char>, i: int, base: u32) -> nat
    decreases s.len() - i,
{
    if 0 <= i < s.len() && (spec_is_digit_in(s[i], base) || s[i] == '_') { 1 + digit_run(s, i + 1, base) } else { 0 }
}

/// A maximal run of digits of `base` and `_` is what `digit_run` counts.
proof fn lemma_digit_run(s: Seq<char>, i: int, e: int, base: u32)
    requires
        0 <= i <= e <= s.len(),
        forall|j: int| i <= j < e ==> spec_is_digit_in(#[trigger] s[j], base) || s[j] == '_',
        e == s.len() || !(spec_is_digit_in(s[e], base) || s[e] == '_'),
    ensures
        digit_run(s, i, base) == e - i,
    decreases e - i,
{
    if i < e {
        lemma_digit_run(s, i + 1, e, base);
    }
}

/// The base of a number literal that starts with `start_char`, followed by `next`.
pub open spec fn number_base(start_char: char, next: char, b: GDScriptBuild) -> u32 {
    if start_char != '0' {
        10
    } else if next == 'x' || (b.has_uppercase_number_types && next == 'X') {
        16
    } else if next == 'b' || (b.has_uppercase_number_types && next == 'B') {
        2
    } else {
        10
    }
}

/// How many characters after `start_char` precede the digits of a number literal: the `0` after a
/// sign, or the letter of a `0x`/`0b` prefix.
pub open spec fn number_prefix_len(start_char: char, next: char, b: GDScriptBuild) -> int {
    if start_char != '0' {
        if b.has_literal_sign_handling && (start_char == '+' || start_char == '-') && next == '0' { 1 } else { 0 }
    } else if number_base(start_char, next, b) != 10 {
        1
    } else {
        0
    }
}

/// Where the number literal that starts at index `a` of `s` ends: its digits, a fraction (a `.`
/// not followed by another `.`, then digits) and an exponent (`e` or `E`, an optional sign,
/// digits), the last two for decimal numbers only, digits taken as far as they go.
pub open spec fn number_end(s: Seq<char>, a: int, b: GDScriptBuild) -> int {
    let start_char = s[a];
    let next = char_or_nul(s, a + 1);
    let base = number_base(start_char, next, b);
    let o2 = a + 1 + number_prefix_len(start_char, next, b);
    let o3 = o2 + digit_run(s, o2, base);
    let o4 = if char_or_nul(s, o3) == '.' && char_or_nul(s, o3 + 1) != '.' && base == 10 && start_char != '.' {
        o3 + 1 + digit_run(s, o3 + 1, 10)
    } else {
        o3
    };
    if base == 10 && (char_or_nul(s, o4) == 'e' || char_or_nul(s, o4) == 'E') {
        let d = if char_or_nul(s, o4 + 1) == '+' || char_or_nul(s, o4 + 1) == '-' { o4 + 2 } else { o4 + 1 };
        d + digit_run(s, d, 10)
    } else {
        o4
    }
}

/// The string literal whose first character (a quote, or an `r`, `&` or `^` prefix) is at index
/// `a` of `s`: its value and the index just past it, or `None` when it is malformed.
pub open spec fn string_literal(s: Seq<char>, a: int) -> Option<(Seq<char>, int)> {
    let start_char = s[a];
    let cs = s.skip(a + 1);
    let prefixed = start_char == 'r' || start_char == '&' || start_char == '^';
    let p: int = if prefixed { 1 } else { 0 };
    let q = if prefixed { cs[0] } else { start_char };
    let ml = cs.len() >= p + 2 && cs[p] == q && cs[p + 1] == q;
    let b: int = p + if ml { 2int } else { 0int };
    match string_body(cs.skip(b), start_char == 'r', q, ml) {
        None => None,
        Some((v, m)) => Some((v, a + 1 + b + m)),
    }
}

/// Whether `t` is the literal token for a string with value `v` that starts with `start_char`:
/// a string name after `&`, a node path after `^`, otherwise a string.
pub open spec fn string_token_is(t: Token, start_char: char, v: Seq<char>) -> bool {
    match t {
        Token::Literal(Variant::String(x)) => start_char != '&' && start_char != '^' && x@ == v,
        Token::Literal(Variant::StringName(x)) => start_char == '&' && x@ == v,
        Token::Literal(Variant::NodePath(x)) => start_char == '^' && x@ == v,
        _ => false,
    }
}

/// Whether `t` is an error token with the message `msg`.
pub open spec fn error_with(t: Token, msg: Seq<char>) -> bool {
    t matches Token::Error(Variant::String(m)) && m@ == msg
}

/// Appends the characters of `s` to `dst`.
fn append_str(dst: &mut String, s: &str)
    ensures
        final(dst)@ == old(dst)@ + s@,
{
    let cs = str_chars(s);
    let mut k: usize = 0;
    while k < cs.len()
        invariant
            k <= cs@.len(),
            cs@ == s@,
            dst@ == old(dst)@ + cs@.take(k as int),
        decreases cs@.len() - k,
    {
        push_char(dst, cs[k]);
        k = k + 1;
        assert(dst@ =~= old(dst)@ + cs@.take(k as int));
    }
    assert(cs@.take(k as int) =~= cs@);
}

/// Lowercase hexadecimal digit for `d` below 16.
pub open spec fn hex_digit_lower(d: u32) -> char {
    if d < 10 { ((d + 48) as u8) as char } else { ((d + 87) as u8) as char }
}

/// Lowercase hexadecimal digits of `v` without leading zeros (`"0"` for zero).
pub open spec fn hex_lower(v: u32) -> Seq<char>
    decreases v,
{
    if v < 16 { seq![hex_digit_lower(v)] } else { hex_lower(v / 16).push(hex_digit_lower(v % 16)) }
}

/// The text `char::escape_default` produces.
pub open spec fn spec_escape_default(c: char) -> Seq<char> {
    if c == '\t' {
        seq!['\\', 't']
    } else if c == '\r' {
        seq!['\\', 'r']
    } else if c == '\n' {
        seq!['\\', 'n']
    } else if c == '\'' || c == '"' || c == '\\' {
        seq!['\\', c]
    } else if 0x20 <= (c as u32) && (c as u32) <= 0x7e {
        seq![c]
    } else {
        seq!['\\', 'u', '{'] + hex_lower(c as u32) + seq!['}']
    }
}

/// Lowercase hexadecimal digits of `v`.
fn push_hex_lower(dst: &mut String, v: u32)
    ensures
        final(dst)@ == old(dst)@ + hex_lower(v),
    decreases v,
{
    if v >= 16 {
        push_hex_lower(dst, v / 16);
    }
    let d = v % 16;
    let c: char = if d < 10 { ((d + 48) as u8) as char } else { ((d + 87) as u8) as char };
    push_char(dst, c);
    assert(v < 16 ==> d == v);
}

/// Appends the `char::escape_default` text of `c`.
fn push_escape_default(dst: &mut String, c: char)
    ensures
        final(dst)@ == old(dst)@ + spec_escape_default(c),
{
    if c == '\t' {
        push_char(dst, '\\');
        push_char(dst, 't');
    } else if c == '\r' {
        push_char(dst, '\\');
        push_char(dst, 'r');
    } else if c == '\n' {
        push_char(dst, '\\');
        push_char(dst, 'n');
    } else if c == '\'' || c == '"' || c == '\\' {
        push_char(dst, '\\');
        push_char(dst, c);
    } else if 0x20 <= (c as u32) && (c as u32) <= 0x7e {
        push_char(dst, c);
    } else {
        push_char(dst, '\\');
        push_char(dst, 'u');
        push_char(dst, '{');
        push_hex_lower(dst, c as u32);
        push_char(dst, '}');
    }
    assert(final(dst)@ =~= old(dst)@ + spec_escape_default(c));
}

/// The name used for an indentation character in error messages.
pub open spec fn spec_indent_char_name(ch: char) -> Seq<char> {
    if ch == ' ' { "space"@ } else if ch == '\t' { "tab"@ } else { spec_escape_default(ch) }
}

/// Appends the name used for an indentation character in error messages.
fn push_indent_char_name(dst: &mut String, ch: char)
    ensures
        final(dst)@ == old(dst)@ + spec_indent_char_name(ch),
{
    if ch == ' ' {
        append_str(dst, "space");
    } else if ch == '\t' {
        append_str(dst, "tab");
    } else {
        push_escape_default(dst, ch);
    }
}

/// Length of the run of characters equal to `c` in `s` starting at index `i`.
pub open spec fn run_len(s: Seq<char>, i: int, c: char) -> nat
    decreases s.len() - i,
{
    if 0 <= i < s.len() && s[i] == c { 1 + run_len(s, i + 1, c) } else { 0 }
}

/// Length of the longest prefix of `s` made of identifier-continuing characters.
pub open spec fn xid_run(s: Seq<char>) -> nat
    decreases s.len(),
{
    if s.len() > 0 && spec_is_xid_continue(s[0]) { 1 + xid_run(s.drop_first()) } else { 0 }
}

/// The keyword or constant token spelled by `w`, if any.
pub open spec fn spec_keyword(w: Seq<char>, has_when: bool) -> Option<Token> {
    if w == "as"@ { Some(Token::As) }
    else if w == "and"@ { Some(Token::And) }
    else if w == "assert"@ { Some(Token::Assert) }
    else if w == "await"@ { Some(Token::Await) }
    else if w == "break"@ { Some(Token::Break) }
    else if w == "breakpoint"@ { Some(Token::Breakpoint) }
    else if w == "class"@ { Some(Token::Class) }
    else if w == "class_name"@ { Some(Token::ClassName) }
    else if w == "const"@ { Some(Token::Const) }
    else if w == "continue"@ { Some(Token::Continue) }
    else if w == "elif"@ { Some(Token::Elif) }
    else if w == "else"@ { Some(Token::Else) }
    else if w == "enum"@ { Some(Token::Enum) }
    else if w == "extends"@ { Some(Token::Extends) }
    else if w == "for"@ { Some(Token::For) }
    else if w == "func"@ { Some(Token::Func) }
    else if w == "if"@ { Some(Token::If) }
    else if w == "in"@ { Some(Token::In) }
    else if w == "is"@ { Some(Token::Is) }
    else if w == "match"@ { Some(Token::Match) }
    else if w == "namespace"@ { Some(Token::Namespace) }
    else if w == "not"@ { Some(Token::Not) }
    else if w == "or"@ { Some(Token::Or) }
    else if w == "pass"@ { Some(Token::Pass) }
    else if w == "preload"@ { Some(Token::Preload) }
    else if w == "return"@ { Some(Token::Return) }
    else if w == "self"@ { Some(Token::_Self) }
    else if w == "signal"@ { Some(Token::Signal) }
    else if w == "static"@ { Some(Token::Static) }
    else if w == "super"@ { Some(Token::Super) }
    else if w == "trait"@ { Some(Token::Trait) }
    else if w == "var"@ { Some(Token::Var) }
    else if w == "void"@ { Some(Token::Void) }
    else if w == "while"@ { Some(Token::While) }
    else if w == "when"@ && has_when { Some(Token::When) }
    else if w == "yield"@ { Some(Token::Yield) }
    else if w == "INF"@ { Some(Token::ConstInf) }
    else if w == "NAN"@ { Some(Token::ConstNan) }
    else if w == "PI"@ { Some(Token::ConstPi) }
    else if w == "TAU"@ { Some(Token::ConstTau) }
    else if w == "true"@ { Some(Token::Literal(Variant::Bool(true))) }
    else if w == "false"@ { Some(Token::Literal(Variant::Bool(false))) }
    else if w == "null"@ { Some(Token::Literal(Variant::Nil)) }
    else { None }
}

/// Whether `t` is a token that only a word spells: a keyword, a named constant, `true`,
/// `false`, `null` or a lone `_`.
pub open spec fn is_keyword_token(t: Token) -> bool {
    match t {
        Token::As | Token::And | Token::Assert | Token::Await | Token::Break | Token::Breakpoint
        | Token::Class | Token::ClassName | Token::Const | Token::Continue | Token::Elif | Token::Else
        | Token::Enum | Token::Extends | Token::For | Token::Func | Token::If | Token::In | Token::Is
        | Token::Match | Token::Namespace | Token::Not | Token::Or | Token::Pass | Token::Preload
        | Token::Return | Token::_Self | Token::Signal | Token::Static | Token::Super | Token::Trait
        | Token::Var | Token::Void | Token::While | Token::When | Token::Yield | Token::ConstInf
        | Token::ConstNan | Token::ConstPi | Token::ConstTau | Token::Underscore => true,
        Token::Literal(Variant::Bool(_)) | Token::Literal(Variant::Nil) => true,
        _ => false,
    }
}

/// The spelling of an operator or punctuation token.
pub open spec fn operator_text(t: Token) -> Option<Seq<char>> {
    match t {
        Token::Tilde => Some(seq!['~']),
        Token::Comma => Some(seq![',']),
        Token::Colon => Some(seq![':']),
        Token::Semicolon => Some(seq![';']),
        Token::Dollar => Some(seq!['$']),
        Token::QuestionMark => Some(seq!['?']),
        Token::Backtick => Some(seq!['`']),
        Token::ParenthesisOpen => Some(seq!['(']),
        Token::BracketOpen => Some(seq!['[']),
        Token::BraceOpen => Some(seq!['{']),
        Token::ParenthesisClose => Some(seq![')']),
        Token::BracketClose => Some(seq![']']),
        Token::BraceClose => Some(seq!['}']),
        Token::Bang => Some(seq!['!']),
        Token::BangEqual => Some(seq!['!', '=']),
        Token::Period => Some(seq!['.']),
        Token::PeriodPeriod => Some(seq!['.', '.']),
        Token::PeriodPeriodPeriod => Some(seq!['.', '.', '.']),
        Token::Plus => Some(seq!['+']),
        Token::PlusEqual => Some(seq!['+', '=']),
        Token::Minus => Some(seq!['-']),
        Token::MinusEqual => Some(seq!['-', '=']),
        Token::ForwardArrow => Some(seq!['-', '>']),
        Token::Star => Some(seq!['*']),
        Token::StarEqual => Some(seq!['*', '=']),
        Token::StarStar => Some(seq!['*', '*']),
        Token::StarStarEqual => Some(seq!['*', '*', '=']),
        Token::Slash => Some(seq!['/']),
        Token::SlashEqual => Some(seq!['/', '=']),
        Token::Percent => Some(seq!['%']),
        Token::PercentEqual => Some(seq!['%', '=']),
        Token::Caret => Some(seq!['^']),
        Token::CaretEqual => Some(seq!['^', '=']),
        Token::Ampersand => Some(seq!['&']),
        Token::AmpersandAmpersand => Some(seq!['&', '&']),
        Token::AmpersandEqual => Some(seq!['&', '=']),
        Token::Pipe => Some(seq!['|']),
        Token::PipePipe => Some(seq!['|', '|']),
        Token::PipeEqual => Some(seq!['|', '=']),
        Token::Equal => Some(seq!['=']),
        Token::EqualEqual => Some(seq!['=', '=']),
        Token::Less => Some(seq!['<']),
        Token::LessEqual => Some(seq!['<', '=']),
        Token::LessLess => Some(seq!['<', '<']),
        Token::LessLessEqual => Some(seq!['<', '<', '=']),
        Token::Greater => Some(seq!['>']),
        Token::GreaterEqual => Some(seq!['>', '=']),
        Token::GreaterGreater => Some(seq!['>', '>']),
        Token::GreaterGreaterEqual => Some(seq!['>', '>', '=']),
        _ => None,
    }
}

/// Whether every character of `w` is ASCII.
pub open spec fn all_ascii(w: Seq<char>) -> bool {
    forall|i: int| 0 <= i < w.len() ==> (#[trigger] w[i] as u32) < 128
}

/// Whether `t` is the token for the word `w` that starts with an identifier character: a lone
/// `_`, a keyword (keywords are ASCII), or an identifier spelled `w`.
pub open spec fn is_word_token(t: Token, w: Seq<char>, has_when: bool) -> bool {
    if w.len() == 1 && w[0] == '_' {
        t == Token::Underscore
    } else if all_ascii(w) && spec_keyword(w, has_when) is Some {
        t == spec_keyword(w, has_when)->0
    } else {
        t matches Token::Identifier(s) && s@ == w
    }
}

/// Every character in a run counted by `run_len` equals the run's character.
proof fn lemma_run_len_index(s: Seq<char>, i: int, c: char, j: int)
    requires
        0 <= i,
        0 <= j < run_len(s, i, c),
    ensures
        i + j < s.len(),
        s[i + j] == c,
        run_len(s, i, c) == j + run_len(s, i + j, c),
    decreases j,
{
    if j > 0 {
        lemma_run_len_index(s, i + 1, c, j - 1);
    }
}

/// 16 to the power `n`.
pub open spec fn pow16(n: nat) -> nat
    decreases n,
{
    if n == 0 { 1 } else { 16 * pow16((n - 1) as nat) }
}

/// Powers of 16 grow with the exponent.
proof fn lemma_pow16_mono(a: nat, b: nat)
    requires
        a <= b,
    ensures
        pow16(a) <= pow16(b),
    decreases b,
{
    if a < b {
        lemma_pow16_mono(a, (b - 1) as nat);
    }
}

/// Whether `w` spells `kw`.
fn chars_eq_str(w: &[char], kw: &str) -> (r: bool)
    ensures
        r == (w@ == kw@),
{
    let k = str_chars(kw);
    if w.len() != k.len() {
        return false;
    }
    let mut i: usize = 0;
    while i < w.len()
        invariant
            i <= w@.len(),
            w@.len() == k@.len(),
            k@ == kw@,
            forall|j: int| 0 <= j < i ==> w@[j] == k@[j],
        decreases w@.len() - i,
    {
        if w[i] != k[i] {
            return false;
        }
        i = i + 1;
    }
    assert(w@ =~= k@);
    true
}

/// The keyword or constant token spelled by `w`, if any.
fn keyword(w: &[char], has_when: bool) -> (r: Option<Token>)
    ensures
        r == spec_keyword(w@, has_when),
{
    if chars_eq_str(w, "as") { Some(Token::As) }
    else if chars_eq_str(w, "and") { Some(Token::And) }
    else if chars_eq_str(w, "assert") { Some(Token::Assert) }
    else if chars_eq_str(w, "await") { Some(Token::Await) }
    else if chars_eq_str(w, "break") { Some(Token::Break) }
    else if chars_eq_str(w, "breakpoint") { Some(Token::Breakpoint) }
    else if chars_eq_str(w, "class") { Some(Token::Class) }
    else if chars_eq_str(w, "class_name") { Some(Token::ClassName) }
    else if chars_eq_str(w, "const") { Some(Token::Const) }
    else if chars_eq_str(w, "continue") { Some(Token::Continue) }
    else if chars_eq_str(w, "elif") { Some(Token::Elif) }
    else if chars_eq_str(w, "else") { Some(Token::Else) }
    else if chars_eq_str(w, "enum") { Some(Token::Enum) }
    else if chars_eq_str(w, "extends") { Some(Token::Extends) }
    else if chars_eq_str(w, "for") { Some(Token::For) }
    else if chars_eq_str(w, "func") { Some(Token::Func) }
    else if chars_eq_str(w, "if") { Some(Token::If) }
    else if chars_eq_str(w, "in") { Some(Token::In) }
    else if chars_eq_str(w, "is") { Some(Token::Is) }
    else if chars_eq_str(w, "match") { Some(Token::Match) }
    else if chars_eq_str(w, "namespace") { Some(Token::Namespace) }
    else if chars_eq_str(w, "not") { Some(Token::Not) }
    else if chars_eq_str(w, "or") { Some(Token::Or) }
    else if chars_eq_str(w, "pass") { Some(Token::Pass) }
    else if chars_eq_str(w, "preload") { Some(Token::Preload) }
    else if chars_eq_str(w, "return") { Some(Token::Return) }
    else if chars_eq_str(w, "self") { Some(Token::_Self) }
    else if chars_eq_str(w, "signal") { Some(Token::Signal) }
    else if chars_eq_str(w, "static") { Some(Token::Static) }
    else if chars_eq_str(w, "super") { Some(Token::Super) }
    else if chars_eq_str(w, "trait") { Some(Token::Trait) }
    else if chars_eq_str(w, "var") { Some(Token::Var) }
    else if chars_eq_str(w, "void") { Some(Token::Void) }
    else if chars_eq_str(w, "while") { Some(Token::While) }
    else if chars_eq_str(w, "when") && has_when { Some(Token::When) }
    else if chars_eq_str(w, "yield") { Some(Token::Yield) }
    else if chars_eq_str(w, "INF") { Some(Token::ConstInf) }
    else if chars_eq_str(w, "NAN") { Some(Token::ConstNan) }
    else if chars_eq_str(w, "PI") { Some(Token::ConstPi) }
    else if chars_eq_str(w, "TAU") { Some(Token::ConstTau) }
    else if chars_eq_str(w, "true") { Some(Token::Literal(Variant::Bool(true))) }
    else if chars_eq_str(w, "false") { Some(Token::Literal(Variant::Bool(false))) }
    else if chars_eq_str(w, "null") { Some(Token::Literal(Variant::Nil)) }
    else { None }
}

/// The characters `v[start..end]`.
fn chars_between(v: &Vec<char>, start: usize, end: usize) -> (r: Vec<char>)
    requires
        start <= end <= v@.len(),
    ensures
        r@ == v@.subrange(start as int, end as int),
{
    let mut r: Vec<char> = Vec::new();
    let mut i: usize = start;
    while i < end
        invariant
            start <= i <= end <= v@.len(),
            r@ == v@.subrange(start as int, i as int),
        decreases end - i,
    {
        r.push(v[i]);
        i = i + 1;
        assert(r@ =~= v@.subrange(start as int, i as int));
    }
    r
}

/// Whether `c` is a digit in `base` (2, 10 or 16).
pub open spec fn spec_is_digit_in(c: char, base: u32) -> bool {
    if base == 16 {
        ('0' <= c && c <= '9') || ('a' <= c && c <= 'f') || ('A' <= c && c <= 'F')
    } else if base == 2 {
        c == '0' || c == '1'
    } else {
        '0' <= c && c <= '9'
    }
}

/// Whether `c` is a digit in `base` (2, 10 or 16).
fn is_digit_in(c: char, base: u32) -> (r: bool)
    ensures
        r == spec_is_digit_in(c, base),
{
    if base == 16 {
        ('0' <= c && c <= '9') || ('a' <= c && c <= 'f') || ('A' <= c && c <= 'F')
    } else if base == 2 {
        c == '0' || c == '1'
    } else {
        '0' <= c && c <= '9'
    }
}

/// The characters of `t` other than `_`.
pub open spec fn without_underscores(t: Seq<char>) -> Seq<char>
    decreases t.len(),
{
    if t.len() == 0 {
        t
    } else if t.last() == '_' {
        without_underscores(t.drop_last())
    } else {
        without_underscores(t.drop_last()).push(t.last())
    }
}

/// A character that may follow the `e` of an exponent: a sign, a digit or a separator.
pub open spec fn is_exponent_char(c: char) -> bool {
    ('0' <= c && c <= '9') || c == '_' || c == '+' || c == '-'
}

/// Removing separators from two joined pieces removes them from each piece.
proof fn lemma_without_underscores_append(a: Seq<char>, b: Seq<char>)
    ensures
        without_underscores(a + b) == without_underscores(a) + without_underscores(b),
    decreases b.len(),
{
    if b.len() == 0 {
        assert(a + b =~= a);
        assert(without_underscores(b) =~= Seq::<char>::empty());
        assert(without_underscores(a) + Seq::<char>::empty() =~= without_underscores(a));
    } else {
        lemma_without_underscores_append(a, b.drop_last());
        assert((a + b).drop_last() =~= a + b.drop_last());
        assert((a + b).last() == b.last());
        if b.last() != '_' {
            assert(without_underscores(a) + without_underscores(b.drop_last()).push(b.last())
                =~= (without_underscores(a) + without_underscores(b.drop_last())).push(b.last()));
        }
    }
}

/// Removing separators keeps exactly the other characters a text contains.
proof fn lemma_without_underscores_contains(s: Seq<char>, c: char)
    requires
        c != '_',
    ensures
        without_underscores(s).contains(c) <==> s.contains(c),
    decreases s.len(),
{
    if s.len() == 0 {
        assert(without_underscores(s) =~= Seq::<char>::empty());
        assert(!s.contains(c));
        assert(!without_underscores(s).contains(c));
    } else {
        let d = s.drop_last();
        lemma_without_underscores_contains(d, c);
        let w = without_underscores(d);
        let ws = without_underscores(s);
        if s.last() == '_' {
            assert(ws == w);
            if s.contains(c) {
                let i = choose|i: int| 0 <= i < s.len() && s[i] == c;
                assert(i < s.len() - 1);
                assert(d[i] == c);
                assert(d.contains(c));
            }
            if d.contains(c) {
                let i = choose|i: int| 0 <= i < d.len() && d[i] == c;
                assert(s[i] == c);
            }
        } else {
            assert(ws == w.push(s.last()));
            if s.contains(c) {
                let i = choose|i: int| 0 <= i < s.len() && s[i] == c;
                if i < s.len() - 1 {
                    assert(d[i] == c);
                    assert(d.contains(c));
                    let j = choose|j: int| 0 <= j < w.len() && w[j] == c;
                    assert(ws[j] == c);
                } else {
                    assert(ws[w.len() as int] == c);
                }
            }
            if ws.contains(c) {
                let j = choose|j: int| 0 <= j < ws.len() && ws[j] == c;
                if j < w.len() {
                    assert(w[j] == c);
                    assert(w.contains(c));
                    let i = choose|i: int| 0 <= i < d.len() && d[i] == c;
                    assert(s[i] == c);
                } else {
                    assert(s[s.len() - 1] == c);
                }
            }
        }
    }
}

/// A number text with a base prefix: its first two characters survive separator removal.
proof fn lemma_prefixed_number(s: Seq<char>, a: int, e: int)
    requires
        0 <= a,
        a + 2 <= e <= s.len(),
        s[a] != '_',
        s[a + 1] != '_',
    ensures
        without_underscores(s.subrange(a, e)).len() >= 2,
        without_underscores(s.subrange(a, e))[0] == s[a],
        without_underscores(s.subrange(a, e))[1] == s[a + 1],
{
    let head = s.subrange(a, a + 2);
    let tail = s.subrange(a + 2, e);
    assert(s.subrange(a, e) =~= head + tail);
    lemma_without_underscores_append(head, tail);
    let one = seq![s[a]];
    assert(head.drop_last() =~= one);
    assert(head.last() == s[a + 1]);
    assert(one.drop_last() =~= Seq::<char>::empty());
    assert(one.last() == s[a]);
    assert(without_underscores(one.drop_last()) =~= Seq::<char>::empty());
    assert(without_underscores(one) =~= Seq::<char>::empty().push(s[a]));
    assert(without_underscores(head) =~= one.push(s[a + 1]));
}

/// A number text with a base prefix has nothing after the prefix, once separators are removed,
/// exactly when everything after the prefix is a separator.
proof fn lemma_prefixed_number_digits(s: Seq<char>, a: int, o2: int, e: int)
    requires
        0 <= a,
        o2 == a + 2,
        o2 <= e <= s.len(),
        s[a] != '_',
        s[a + 1] != '_',
    ensures
        without_underscores(s.subrange(a, e)).len() == 2 <==> forall|i: int| o2 <= i < e ==> #[trigger] s[i] == '_',
{
    let head = s.subrange(a, o2);
    let tail = s.subrange(o2, e);
    assert(s.subrange(a, e) =~= head + tail);
    lemma_without_underscores_append(head, tail);
    lemma_prefixed_number(s, a, o2);
    assert(s.subrange(a, o2) =~= head);
    assert(without_underscores(head).len() <= 2) by {
        lemma_without_underscores_len(head);
    }
    lemma_without_underscores_empty(tail);
    if forall|i: int| o2 <= i < e ==> #[trigger] s[i] == '_' {
        assert forall|i: int| 0 <= i < tail.len() implies tail[i] == '_' by {
            assert(tail[i] == s[o2 + i]);
        }
    }
    if without_underscores(tail).len() == 0 {
        assert forall|i: int| o2 <= i < e implies #[trigger] s[i] == '_' by {
            assert(tail[i - o2] == s[i]);
        }
    }
}

/// Removing separators never lengthens a text.
proof fn lemma_without_underscores_len(s: Seq<char>)
    ensures
        without_underscores(s).len() <= s.len(),
    decreases s.len(),
{
    if s.len() > 0 {
        lemma_without_underscores_len(s.drop_last());
    }
}

/// The characters of a decimal number text: the first character, then `0`s, digits and
/// separators, then a fraction (`.`, digits, separators) exactly when a decimal point was read
/// after the first character, then an exponent (`e`/`E`, signs, digits, separators) exactly when
/// one was read. Its text holds no base-prefix letter, and holds `.`, `e` or `E` exactly when it
/// has a decimal point or an exponent.
proof fn lemma_decimal_number(
    s: Seq<char>, a: int, o2: int, o3: int, o4: int, o5: int,
    has_decimal: bool, has_exponent: bool,
)
    requires
        0 <= a < o2 <= o3 <= o4 <= o5 <= s.len(),
        ('0' <= s[a] && s[a] <= '9') || s[a] == '.' || s[a] == '+' || s[a] == '-',
        s[a] == '.' ==> has_decimal,
        forall|i: int| a + 1 <= i < o2 ==> #[trigger] s[i] == '0',
        forall|i: int| o2 <= i < o3 ==> ('0' <= #[trigger] s[i] && s[i] <= '9') || s[i] == '_',
        o4 > o3 ==> has_decimal && s[o3] == '.',
        forall|i: int| o3 + 1 <= i < o4 ==> ('0' <= #[trigger] s[i] && s[i] <= '9') || s[i] == '_',
        has_decimal && s[a] != '.' ==> o4 > o3,
        !has_exponent ==> o5 == o4,
        has_exponent ==> o5 > o4 && (s[o4] == 'e' || s[o4] == 'E'),
        forall|i: int| o4 + 1 <= i < o5 ==> is_exponent_char(#[trigger] s[i]),
    ensures
        ({
            let t = without_underscores(s.subrange(a, o5));
            &&& !(t.len() >= 2 && t[0] == '0' && (t[1] == 'x' || t[1] == 'X' || t[1] == 'b' || t[1] == 'B'))
            &&& (t.contains('.') || t.contains('e') || t.contains('E')) <==> (has_decimal || has_exponent)
        }),
{
    let text = s.subrange(a, o5);
    let t = without_underscores(text);
    // Where each character of the text comes from.
    assert forall|k: int| 0 <= k < text.len() implies {
        let c = #[trigger] text[k];
        &&& c != 'x' && c != 'X' && c != 'b' && c != 'B'
        &&& (c == '.' ==> has_decimal)
        &&& (c == 'e' || c == 'E' ==> has_exponent)
    } by {
        let i = a + k;
        assert(text[k] == s[i]);
        if i == a {
        } else if i < o2 {
        } else if i < o3 {
        } else if i < o4 {
            if i > o3 {
            }
        } else if i == o4 {
        } else {
        }
    }
    lemma_without_underscores_contains(text, 'x');
    lemma_without_underscores_contains(text, 'X');
    lemma_without_underscores_contains(text, 'b');
    lemma_without_underscores_contains(text, 'B');
    lemma_without_underscores_contains(text, '.');
    lemma_without_underscores_contains(text, 'e');
    lemma_without_underscores_contains(text, 'E');
    if t.len() >= 2 {
        assert(t.contains(t[1]));
    }
    if t.contains('.') {
        let k = choose|k: int| 0 <= k < text.len() && text[k] == '.';
        assert(text[k] == '.');
    }
    if t.contains('e') {
        let k = choose|k: int| 0 <= k < text.len() && text[k] == 'e';
        assert(text[k] == 'e');
    }
    if t.contains('E') {
        let k = choose|k: int| 0 <= k < text.len() && text[k] == 'E';
        assert(text[k] == 'E');
    }
    if has_decimal {
        if s[a] == '.' {
            assert(text[0] == '.');
        } else {
            assert(text[o3 - a] == '.');
        }
    }
    if has_exponent {
        assert(text[o4 - a] == s[o4]);
    }
}

/// Copies `v[start..end]` into a string, leaving out `_`.
fn string_without_underscores(v: &Vec<char>, start: usize, end: usize) -> (r: String)
    requires
        start <= end <= v@.len(),
    ensures
        r@ == without_underscores(v@.subrange(start as int, end as int)),
{
    let mut r = String::new();
    let mut i: usize = start;
    proof {
        assert(v@.subrange(start as int, start as int).len() == 0);
    }
    while i < end
        invariant
            start <= i <= end <= v@.len(),
            r@ == without_underscores(v@.subrange(start as int, i as int)),
        decreases end - i,
    {
        let c = v[i];
        if c != '_' {
            push_char(&mut r, c);
        }
        proof {
            assert(v@.subrange(start as int, i + 1).drop_last() =~= v@.subrange(start as int, i as int));
        }
        i = i + 1;
    }
    r
}

/// Whether `v` is the value of the numeric literal `t` (digit separators removed): hexadecimal
/// after `0x`, binary after `0b`, the text itself when it has a decimal point or an exponent,
/// decimal otherwise.
#[verifier::opaque]
pub open spec fn is_number_value(v: Variant, t: Seq<char>) -> bool {
    if t.len() >= 2 && t[0] == '0' && (t[1] == 'x' || t[1] == 'X') {
        v == Variant::Int(spec_hex_to_int(t) as i64)
    } else if t.len() >= 2 && t[0] == '0' && (t[1] == 'b' || t[1] == 'B') {
        v == Variant::Int(spec_bin_to_int(t, encode_utf8(t).len()) as i64)
    } else if t.contains('.') || t.contains('e') || t.contains('E') {
        v matches Variant::Float(f) && f@ == t
    } else {
        v == Variant::Int(spec_to_int(t) as i64)
    }
}

/// Whether the numeric literal `t` (digit separators removed) is rejected: a base prefix without
/// digits where the build asks for digits, or a value that the conversion does not accept.
#[verifier::opaque]
pub open spec fn number_rejected(t: Seq<char>, need_digits: bool) -> bool {
    if t.len() >= 2 && t[0] == '0' && (t[1] == 'x' || t[1] == 'X') {
        (need_digits && t.len() == 2) || !hex_to_int_accepts(t)
    } else if t.len() >= 2 && t[0] == '0' && (t[1] == 'b' || t[1] == 'B') {
        (need_digits && t.len() == 2) || !bin_to_int_accepts(t, encode_utf8(t).len())
    } else if t.contains('.') || t.contains('e') || t.contains('E') {
        false
    } else {
        !to_int_accepts(t)
    }
}

/// A text is left empty by separator removal exactly when it holds only separators.
proof fn lemma_without_underscores_empty(s: Seq<char>)
    ensures
        without_underscores(s).len() == 0 <==> forall|i: int| 0 <= i < s.len() ==> s[i] == '_',
    decreases s.len(),
{
    if s.len() > 0 {
        lemma_without_underscores_empty(s.drop_last());
        if forall|i: int| 0 <= i < s.len() ==> s[i] == '_' {
            assert forall|i: int| 0 <= i < s.drop_last().len() implies s.drop_last()[i] == '_' by {
                assert(s.drop_last()[i] == s[i]);
            }
        }
        if without_underscores(s).len() == 0 {
            assert(s.last() == '_');
            assert forall|i: int| 0 <= i < s.len() implies s[i] == '_' by {
                if i < s.len() - 1 {
                    assert(s.drop_last()[i] == s[i]);
                }
            }
        }
    }
}

/// Kinds of string literal.
#[derive(Clone, Copy, PartialEq, Eq, Structural)]
enum StringType {
    Regular,
    RegularRaw,
    Name,
    NodePath,
}

/// Calls `char::from_u32`: the character with code point `v`, or `None` when `v` is a surrogate
/// (U+D800 to U+DFFF) or above U+10FFFF, as the standard library documents.
#[verifier::external_body]
fn char_from_u32(v: u32) -> (r: Option<char>)
    ensures
        r is None <==> ((0xD800 <= v && v <= 0xDFFF) || v > 0x10FFFF),
        r matches Some(c) ==> c as u32 == v,
{
    char::from_u32(v)
}

/// The character a simple escape (`\\` and a letter or quote) stands for.
pub open spec fn simple_escape(c: char) -> Option<char> {
    if c == 'a' {
        Some('\x07')
    } else if c == 'b' {
        Some('\x08')
    } else if c == 'f' {
        Some('\x0C')
    } else if c == 'n' {
        Some('\n')
    } else if c == 'r' {
        Some('\r')
    } else if c == 't' {
        Some('\t')
    } else if c == 'v' {
        Some('\x0B')
    } else if c == '\'' || c == '"' || c == '\\' {
        Some(c)
    } else {
        None
    }
}

/// What an escape sequence adds to a string's value, and how many characters after its
/// backslash it takes, reading `rest` (what follows the backslash); `None` when the input ends
/// inside it. In a raw string only a backslash before the quote or before another backslash
/// escapes, and both characters are kept. Otherwise: the simple escapes, `\u` with four and `\U`
/// with six hexadecimal digits, a backslash before a line break (which adds nothing; before a
/// carriage return not followed by a line feed it adds the carriage return and skips the next
/// character), and any other character, which adds nothing (an error is reported).
pub open spec fn escape_step(rest: Seq<char>, raw: bool, q: char) -> Option<(Seq<char>, nat)> {
    if raw {
        if rest[0] == q || rest[0] == '\\' {
            if rest.len() <= 1 { None } else { Some((seq!['\\', rest[0]], 1)) }
        } else {
            Some((seq!['\\'], 0))
        }
    } else if rest.len() <= 1 {
        None
    } else if simple_escape(rest[0]) is Some {
        Some((seq![simple_escape(rest[0])->0], 1))
    } else if rest[0] == 'u' || rest[0] == 'U' {
        match unicode_escape_spec(rest.skip(1), if rest[0] == 'U' { 6 } else { 4 }) {
            None => None,
            Some((oc, k)) => Some((
                match oc {
                    Some(c) => seq![c],
                    None => Seq::empty(),
                },
                (1 + k) as nat,
            )),
        }
    } else if rest[0] == '\r' && rest[1] != '\n' {
        Some((seq!['\r'], 2))
    } else {
        Some((Seq::empty(), 1))
    }
}

/// Adds `x` in front of the value of a string-body outcome and `n` to the characters it took.
pub open spec fn body_prepend(x: Seq<char>, n: nat, r: Option<(Seq<char>, nat)>) -> Option<(Seq<char>, nat)> {
    match r {
        Some((v, m)) => Some((x + v, n + m)),
        None => None,
    }
}

/// The value of the string literal body `cs` (what follows the opening quote, or the three
/// opening quotes when `ml`), closed by `q` (three of them when `ml`), and how many characters
/// it takes up to and including the closing quote(s); `None` when the input ends first.
/// Backslashes start escape sequences (see `escape_step`); in a triple-quoted string a quote
/// that does not start three is part of the value.
#[verifier::opaque]
pub open spec fn string_body(cs: Seq<char>, raw: bool, q: char, ml: bool) -> Option<(Seq<char>, nat)>
    decreases cs.len(),
{
    if cs.len() == 0 {
        None
    } else if cs[0] == '\\' {
        if cs.len() == 1 {
            None
        } else {
            match escape_step(cs.skip(1), raw, q) {
                None => None,
                Some((x, k)) => {
                    proof {
                        lemma_escape_step_len(cs.skip(1), raw, q);
                    }
                    body_prepend(x, (1 + k) as nat, string_body(cs.skip(1 + k as int), raw, q, ml))
                },
            }
        }
    } else if cs[0] == q {
        if !ml {
            Some((Seq::empty(), 1))
        } else if cs.len() >= 3 && cs[1] == q && cs[2] == q {
            Some((Seq::empty(), 3))
        } else {
            body_prepend(seq![q], 1, string_body(cs.skip(1), raw, q, ml))
        }
    } else {
        body_prepend(seq![cs[0]], 1, string_body(cs.skip(1), raw, q, ml))
    }
}

/// The characters a hexadecimal scan passes are digits, and it stops at the end of the input or
/// at a non-digit.
pub proof fn lemma_hex_scan(cs: Seq<char>, i: nat, n: nat)
    requires
        i <= n,
    ensures
        i <= hex_scan(cs, i, n) <= n,
        hex_scan(cs, i, n) < n ==> hex_scan(cs, i, n) >= cs.len() || hex_value(cs[hex_scan(cs, i, n) as int]) is None,
        forall|j: int| i <= j < hex_scan(cs, i, n) ==> j < cs.len() && hex_value(#[trigger] cs[j]) is Some,
    decreases n - i,
{
    if i < n && i < cs.len() && hex_value(cs[i as int]) is Some {
        lemma_hex_scan(cs, i + 1, n);
    }
}

/// An escape takes no more characters than there are.
pub proof fn lemma_escape_step_len(rest: Seq<char>, raw: bool, q: char)
    requires
        rest.len() > 0,
    ensures
        escape_step(rest, raw, q) matches Some((x, k)) ==> k <= rest.len(),
{
    if !raw && rest.len() > 1 && simple_escape(rest[0]) is None && (rest[0] == 'u' || rest[0] == 'U') {
        let n: nat = if rest[0] == 'U' { 6 } else { 4 };
        lemma_hex_scan(rest.skip(1), 0, n);
        let k = hex_scan(rest.skip(1), 0, n);
        if k == n && n > 0 {
            assert(n - 1 < rest.skip(1).len()) by {
                assert(0 <= n - 1 < hex_scan(rest.skip(1), 0, n));
            }
        }
    }
}

/// One step of `string_body`: what its first character (or escape) adds, and the rest.
pub(crate) proof fn lemma_string_body_step(cs: Seq<char>, raw: bool, q: char, ml: bool)
    ensures
        cs.len() == 0 ==> string_body(cs, raw, q, ml) is None,
        cs.len() > 0 && cs[0] == '\\' ==> string_body(cs, raw, q, ml) == (if cs.len() == 1 {
            None
        } else {
            match escape_step(cs.skip(1), raw, q) {
                None => None,
                Some((x, k)) => body_prepend(x, (1 + k) as nat, string_body(cs.skip(1 + k as int), raw, q, ml)),
            }
        }),
        cs.len() > 0 && cs[0] != '\\' && cs[0] == q ==> string_body(cs, raw, q, ml) == (if !ml {
            Some((Seq::<char>::empty(), 1nat))
        } else if cs.len() >= 3 && cs[1] == q && cs[2] == q {
            Some((Seq::<char>::empty(), 3nat))
        } else {
            body_prepend(seq![q], 1, string_body(cs.skip(1), raw, q, ml))
        }),
        cs.len() > 0 && cs[0] != '\\' && cs[0] != q ==> string_body(cs, raw, q, ml)
            == body_prepend(seq![cs[0]], 1, string_body(cs.skip(1), raw, q, ml)),
{
    reveal_with_fuel(string_body, 1);
}

/// Prepending twice is prepending once, with the parts joined.
proof fn lemma_body_prepend_twice(a: Seq<char>, n: nat, b: Seq<char>, m: nat, r: Option<(Seq<char>, nat)>)
    ensures
        body_prepend(a, n, body_prepend(b, m, r)) == body_prepend(a + b, n + m, r),
{
    if let Some((v, k)) = r {
        assert(a + (b + v) =~= (a + b) + v);
    }
}

/// Whether `v` is the value of the string literal token spelled `text`: an optional prefix
/// (`r` for a raw string, where the build has raw strings; `&` for a string name; `^` for a node
/// path), one or three quotes, a body, and the closing quote(s), with `v` the body's value (see
/// `string_body`).
#[verifier::opaque]
pub open spec fn is_string_value(v: Variant, text: Seq<char>, has_raw: bool) -> bool {
    let c0 = text[0];
    let prefixed = (c0 == 'r' && has_raw) || c0 == '&' || c0 == '^';
    let p: int = if prefixed { 2 } else { 1 };
    let q = text[p - 1];
    let ml = text.len() >= p + 2 && text[p] == q && text[p + 1] == q;
    let b: int = p + if ml { 2int } else { 0int };
    &&& text.len() >= b
    &&& match v {
        Variant::String(x) => c0 != '&' && c0 != '^'
            && string_body(text.skip(b), c0 == 'r' && has_raw, q, ml) == Some((x@, (text.len() - b) as nat)),
        Variant::StringName(x) => c0 == '&'
            && string_body(text.skip(b), false, q, ml) == Some((x@, (text.len() - b) as nat)),
        Variant::NodePath(x) => c0 == '^'
            && string_body(text.skip(b), false, q, ml) == Some((x@, (text.len() - b) as nat)),
        _ => false,
    }
}

/// A hexadecimal scan reads the same from a prefix that still holds where it stops.
proof fn lemma_hex_scan_take(cs: Seq<char>, j: int, i: nat, n: nat)
    requires
        i <= n,
        0 <= j <= cs.len(),
        hex_scan(cs, i, n) < n ==> j > hex_scan(cs, i, n),
        hex_scan(cs, i, n) == n ==> j >= n,
    ensures
        hex_scan(cs.take(j), i, n) == hex_scan(cs, i, n),
    decreases n - i,
{
    lemma_hex_scan(cs, i, n);
    if i < n && i < cs.len() && hex_value(cs[i as int]) is Some {
        lemma_hex_scan(cs, i + 1, n);
        assert(cs.take(j)[i as int] == cs[i as int]);
        lemma_hex_scan_take(cs, j, i + 1, n);
    } else if i < n && i < cs.len() {
        assert(cs.take(j)[i as int] == cs[i as int]);
    }
}

/// The value of hexadecimal digits reads the same from a prefix that holds them.
proof fn lemma_hex_prefix_value_take(cs: Seq<char>, j: int, n: nat)
    requires
        n <= j <= cs.len(),
    ensures
        hex_prefix_value(cs.take(j), n) == hex_prefix_value(cs, n),
    decreases n,
{
    if n > 0 {
        lemma_hex_prefix_value_take(cs, j, (n - 1) as nat);
        assert(cs.take(j)[n - 1] == cs[n - 1]);
    }
}

/// A `\u`/`\U` escape reads the same from a prefix that holds one more character than it takes.
proof fn lemma_unicode_escape_take(cs: Seq<char>, j: int, n: nat)
    requires
        unicode_escape_spec(cs, n) matches Some((c, k)) && k + 1 <= j,
        j <= cs.len(),
    ensures
        unicode_escape_spec(cs.take(j), n) == unicode_escape_spec(cs, n),
{
    lemma_hex_scan(cs, 0, n);
    let s = hex_scan(cs, 0, n);
    lemma_hex_scan_take(cs, j, 0, n);
    if s == n {
        lemma_hex_prefix_value_take(cs, j, n);
    }
}

/// An escape reads the same from a prefix that holds one more character than it takes.
proof fn lemma_escape_step_take(rest: Seq<char>, j: int, raw: bool, q: char)
    requires
        rest.len() > 0,
        escape_step(rest, raw, q) matches Some((x, k)) && k + 1 <= j,
        j <= rest.len(),
    ensures
        escape_step(rest.take(j), raw, q) == escape_step(rest, raw, q),
{
    let t = rest.take(j);
    assert(t[0] == rest[0]);
    if !raw && rest.len() > 1 {
        assert(t[1] == rest[1]);
        if simple_escape(rest[0]) is None && (rest[0] == 'u' || rest[0] == 'U') {
            let n: nat = if rest[0] == 'U' { 6 } else { 4 };
            assert(t.skip(1) =~= rest.skip(1).take(j - 1));
            lemma_unicode_escape_take(rest.skip(1), j - 1, n);
        }
    }
}

/// A string body reads the same from any prefix that holds all of it.
proof fn lemma_string_body_take(cs: Seq<char>, j: int, raw: bool, q: char, ml: bool)
    requires
        string_body(cs, raw, q, ml) matches Some((v, m)) && m <= j,
        j <= cs.len(),
    ensures
        string_body(cs.take(j), raw, q, ml) == string_body(cs, raw, q, ml),
    decreases cs.len(),
{
    let t = cs.take(j);
    lemma_string_body_step(cs, raw, q, ml);
    lemma_string_body_step(t, raw, q, ml);
    lemma_string_body_len(cs, raw, q, ml);
    assert(t[0] == cs[0]);
    if cs[0] == '\\' {
        let (x, k) = escape_step(cs.skip(1), raw, q)->0;
        lemma_escape_step_len(cs.skip(1), raw, q);
        let rest = string_body(cs.skip(1 + k as int), raw, q, ml);
        lemma_string_body_len(cs.skip(1 + k as int), raw, q, ml);
        assert(t.skip(1) =~= cs.skip(1).take(j - 1));
        lemma_escape_step_take(cs.skip(1), j - 1, raw, q);
        assert(t.skip(1 + k as int) =~= cs.skip(1 + k as int).take(j - 1 - k));
        lemma_string_body_take(cs.skip(1 + k as int), j - 1 - k, raw, q, ml);
    } else if cs[0] == q {
        if ml {
            if cs.len() >= 3 && cs[1] == q && cs[2] == q {
                assert(t[1] == cs[1] && t[2] == cs[2]);
            } else {
                lemma_string_body_len(cs.skip(1), raw, q, ml);
                if t.len() >= 3 {
                    assert(t[1] == cs[1] && t[2] == cs[2]);
                }
                assert(t.skip(1) =~= cs.skip(1).take(j - 1));
                lemma_string_body_take(cs.skip(1), j - 1, raw, q, ml);
            }
        }
    } else {
        lemma_string_body_len(cs.skip(1), raw, q, ml);
        assert(t.skip(1) =~= cs.skip(1).take(j - 1));
        lemma_string_body_take(cs.skip(1), j - 1, raw, q, ml);
    }
}

/// A string body takes at least one character and no more than there are.
proof fn lemma_string_body_len(cs: Seq<char>, raw: bool, q: char, ml: bool)
    ensures
        string_body(cs, raw, q, ml) matches Some((v, m)) ==> 1 <= m <= cs.len(),
    decreases cs.len(),
{
    lemma_string_body_step(cs, raw, q, ml);
    if cs.len() > 0 {
        if cs[0] == '\\' {
            if cs.len() > 1 {
                lemma_escape_step_len(cs.skip(1), raw, q);
                if let Some((x, k)) = escape_step(cs.skip(1), raw, q) {
                    lemma_string_body_len(cs.skip(1 + k as int), raw, q, ml);
                }
            }
        } else {
            lemma_string_body_len(cs.skip(1), raw, q, ml);
        }
    }
}

/// Value of an ASCII hexadecimal digit in either case, or `None`.
pub open spec fn hex_value(c: char) -> Option<u32> {
    if '0' <= c && c <= '9' {
        Some((c as u32 - '0' as u32) as u32)
    } else if 'a' <= c && c <= 'f' {
        Some((c as u32 - 'a' as u32 + 10) as u32)
    } else if 'A' <= c && c <= 'F' {
        Some((c as u32 - 'A' as u32 + 10) as u32)
    } else {
        None
    }
}

/// The first position from `i` below `n` where `cs` ends or holds no hexadecimal digit, or `n`.
pub open spec fn hex_scan(cs: Seq<char>, i: nat, n: nat) -> nat
    decreases n - i,
{
    if i >= n {
        n
    } else if i >= cs.len() || hex_value(cs[i as int]) is None {
        i
    } else {
        hex_scan(cs, i + 1, n)
    }
}

/// Value of the first `n` characters of `cs` read as hexadecimal digits.
pub open spec fn hex_prefix_value(cs: Seq<char>, n: nat) -> nat
    decreases n,
{
    if n == 0 {
        0
    } else {
        hex_prefix_value(cs, (n - 1) as nat) * 16 + hex_value(cs[n - 1]).unwrap_or(0) as nat
    }
}

/// What the `n` digits of a `\u` (`n` = 4) or `\U` (`n` = 6) escape at the start of `cs` give:
/// `None` when `cs` ends first; else the character, or `None` after a bad digit (which is not
/// consumed) or for a value that is no character, and how many characters were consumed.
pub open spec fn unicode_escape_spec(cs: Seq<char>, n: nat) -> Option<(Option<char>, nat)> {
    let k = hex_scan(cs, 0, n);
    if k < n {
        if k >= cs.len() { None } else { Some((None, k)) }
    } else {
        let v = hex_prefix_value(cs, n);
        if (0xD800 <= v && v <= 0xDFFF) || v > 0x10FFFF {
            Some((None, n))
        } else {
            Some((Some((v as u32) as char), n))
        }
    }
}

fn hex_digit(c: char) -> (r: Option<u32>)
    ensures
        r == hex_value(c),
        r matches Some(d) ==> d < 16,
{
    if '0' <= c && c <= '9' {
        Some(c as u32 - '0' as u32)
    } else if 'a' <= c && c <= 'f' {
        Some(c as u32 - 'a' as u32 + 10)
    } else if 'A' <= c && c <= 'F' {
        Some(c as u32 - 'A' as u32 + 10)
    } else {
        None
    }
}

/// The invisible text-direction controls: U+200E, U+200F, U+202A to U+202E, U+2066 to U+2069.
pub open spec fn spec_is_direction_control(c: char) -> bool {
    let cp = c as u32;
    cp == 0x200E || cp == 0x200F || (0x202A <= cp && cp <= 0x202E) || (0x2066 <= cp && cp <= 0x2069)
}

/// Whether `c` is an invisible text-direction control character.
fn is_direction_control(c: char) -> (r: bool)
    ensures
        r == spec_is_direction_control(c),
{
    let cp = c as u32;
    cp == 0x200E || cp == 0x200F || (0x202A <= cp && cp <= 0x202E) || (0x2066 <= cp && cp <= 0x2069)
}

/// The uppercase hexadecimal digit for `d` (below 16).
pub open spec fn hex_digit_upper(d: nat) -> char {
    if d < 10 { (d + 48) as char } else { (d + 55) as char }
}

/// Uppercase hexadecimal digits of `v`, padded with zeros to at least `width` digits.
pub open spec fn hex_upper(v: nat, width: nat) -> Seq<char>
    decreases v, width,
{
    if v >= 16 || width > 1 {
        hex_upper(v / 16, if width > 1 { (width - 1) as nat } else { 0 }).push(hex_digit_upper(v % 16))
    } else {
        seq![hex_digit_upper(v % 16)]
    }
}

/// Appends the uppercase hexadecimal digits of `v`, padded with zeros to at least `width` digits.
fn push_hex_upper(dst: &mut String, v: u32, width: u32)
    ensures
        final(dst)@ == old(dst)@ + hex_upper(v as nat, width as nat),
    decreases v, width,
{
    if v >= 16 || width > 1 {
        let w: u32 = if width > 1 { width - 1 } else { 0 };
        push_hex_upper(dst, v / 16, w);
    }
    let d = v % 16;
    let c: char = if d < 10 { ((d + 48) as u8) as char } else { ((d + 55) as u8) as char };
    push_char(dst, c);
    assert(c == hex_digit_upper(d as nat));
    assert(final(dst)@ =~= old(dst)@ + hex_upper(v as nat, width as nat));
}

/// The error text for a character that starts no token: for a white space character, its code
/// point (in `U+XXXX` form where `improved`); else the character itself (with its code point
/// where `improved`).
pub open spec fn invalid_character_text(ch: char, improved: bool, zwsp_is_whitespace: bool) -> Seq<char> {
    if spec_is_godot_whitespace(ch, zwsp_is_whitespace) {
        if improved {
            "Invalid white space character U+"@ + hex_upper(ch as nat, 4) + "."@
        } else {
            "Invalid white space character \"\\u"@ + hex_upper(ch as nat, 1) + "\"."@
        }
    } else if improved {
        "Invalid character \""@ + seq![ch] + "\" (U+"@ + hex_upper(ch as nat, 4) + ")."@
    } else {
        "Unknown character \""@ + seq![ch] + "\"."@
    }
}

/// The message for a closing bracket whose opening counterpart is `opening`.
pub open spec fn mismatch_message(closing: char, opening: char) -> Seq<char> {
    "Closing \""@ + seq![closing] + "\" doesn't match the opening \""@ + seq![opening] + "\"."@
}

/// The message for a closing bracket without an opening counterpart.
pub open spec fn unopened_message(closing: char) -> Seq<char> {
    "Closing \""@ + seq![closing] + "\" doesn't have an opening counterpart."@
}

/// Whether a token of kind `t` may come before a binary operator (see `Token::can_precede_bin_op`).
fn kind_can_precede_bin_op(t: TokenType) -> (r: bool)
    ensures
        r == ends_operand(t),
{
    match t {
        TokenType::Identifier | TokenType::Literal | TokenType::_Self | TokenType::BracketClose
            | TokenType::BraceClose | TokenType::ParenthesisClose | TokenType::ConstPi
            | TokenType::ConstTau | TokenType::ConstInf | TokenType::ConstNan => true,
        _ => false,
    }
}

/// Width of a tab in indentation.
pub const TAB_SIZE: usize = 4;

/// Longest source (in characters) the tokenizer accepts. A consumed character moves the column by
/// at most eight (a tab moves it by its width), so line and column numbers and indentation widths
/// stay below eight times the length plus eight, which this bound keeps within `usize`.
pub open spec fn max_source_len() -> nat {
    (usize::MAX / 16) as nat
}

/// Converts a GDScript source into tokens.
pub struct TokenizerText<'v> {
    version: &'v GDScriptBuild,
    source: Vec<char>,
    chars: NPeekable<char>,
    /// Characters consumed so far (`usize::MAX` once the end-of-file token was produced).
    offset: usize,
    start_offset: usize,
    start_position: Position,
    position: Position,
    line_continuation: bool,
    multiline_mode: bool,
    error_stack: Vec<Spanned<Token>>,
    /// Kind of the last token produced.
    last_token: Option<TokenType>,
    /// A pending newline token: its continuation flag and span.
    last_newline: Option<(bool, Span)>,
    pending_indents: isize,
    indent_stack: Vec<usize>,
    paren_stack: Vec<char>,
    indent_char: Option<char>,
    /// Number of indentation levels ever pushed.
    pushes: Ghost<nat>,
    /// Number of indent tokens produced.
    emitted: Ghost<nat>,
    /// Number of dedent tokens produced.
    dedents: Ghost<nat>,
    /// Number of lines unindented to a level that was never opened.
    mismatches: Ghost<nat>,
    /// Number of error tokens returned.
    errors_out: Ghost<nat>,
}

impl<'v> TokenizerText<'v> {
    /// The characters not yet consumed.
    pub closed spec fn rest(&self) -> Seq<char> {
        self.chars@
    }

    /// The whole source.
    pub closed spec fn src(&self) -> Seq<char> {
        self.source@
    }

    /// Whether the end-of-file token has been produced.
    pub closed spec fn finished(&self) -> bool {
        self.offset == usize::MAX
    }

    /// Characters consumed so far.
    pub closed spec fn consumed(&self) -> nat {
        if self.offset == usize::MAX { self.source@.len() } else { self.offset as nat }
    }

    /// The current position.
    pub closed spec fn pos(&self) -> Position {
        self.position
    }

    /// Whether the tokenizer is in multiline mode.
    pub closed spec fn multiline(&self) -> bool {
        self.multiline_mode
    }

    /// Number of errors waiting to be returned.
    pub closed spec fn pending_errors(&self) -> nat {
        self.error_stack@.len()
    }

    /// The engine build whose rules the tokenizer follows.
    pub closed spec fn build(&self) -> GDScriptBuild {
        *self.version
    }

    /// The source text of the most recent token: from its start to the current character.
    pub closed spec fn token_text(&self) -> Seq<char> {
        self.source@.subrange(self.start_offset as int, self.offset as int)
    }

    /// A newline token waiting to be returned: whether it ends a continued line, and its span.
    pub closed spec fn pending_newline(&self) -> Option<(bool, Span)> {
        self.last_newline
    }

    /// Indent tokens (positive) or dedent tokens (negative) waiting to be returned.
    pub closed spec fn pending_layout(&self) -> int {
        self.pending_indents as int
    }

    /// Where the most recent token starts in the source.
    pub closed spec fn token_begin(&self) -> nat {
        self.start_offset as nat
    }

    /// Whether the previous token can end an operand (so that a following sign is an operator).
    pub closed spec fn after_operand(&self) -> bool {
        match self.last_token {
            Some(t) => ends_operand(t),
            None => false,
        }
    }

    /// The innermost open bracket, if any.
    pub closed spec fn paren_top(&self) -> Option<char> {
        innermost_paren(self.paren_stack@)
    }

    /// Whether the next token is read from the source at the current character: nothing is
    /// waiting to be returned (no error, newline, indent or dedent), the input goes on with a
    /// character that is not blank, a comment or a line continuation, and (at the start of a line)
    /// no indentation level is open to be closed.
    pub closed spec fn at_token(&self) -> bool {
        &&& self.error_stack@.len() == 0
        &&& self.last_newline is None
        &&& self.pending_indents == 0
        &&& self.offset != usize::MAX
        &&& self.chars@.len() > 0
        &&& starts_content(self.chars@[0])
        &&& self.chars@[0] != '\\'
        &&& (self.position.column != 1 || self.indent_stack@.len() == 0 || self.line_continuation
            || self.multiline_mode)
    }

    /// The errors waiting to be returned; the last one comes out first.
    pub closed spec fn errors(&self) -> Seq<Spanned<Token>> {
        self.error_stack@
    }

    /// How many indent tokens have been returned.
    pub closed spec fn indents_returned(&self) -> nat {
        self.emitted@
    }

    /// How many dedent tokens have been returned.
    pub closed spec fn dedents_returned(&self) -> nat {
        self.dedents@
    }

    /// How many error tokens have been returned.
    pub closed spec fn errors_returned(&self) -> nat {
        self.errors_out@
    }

    /// How many lines were unindented to a level that was never opened (each is reported as an
    /// error, and the level is then taken as open).
    pub closed spec fn unindent_mismatches(&self) -> nat {
        self.mismatches@
    }

    /// How many indentation levels are open.
    pub closed spec fn open_levels(&self) -> nat {
        self.indent_stack@.len()
    }

    /// Whether every token has been produced: the end-of-file token was returned and nothing is
    /// left to report.
    pub closed spec fn exhausted(&self) -> bool {
        &&& self.offset == usize::MAX
        &&& self.error_stack@.len() == 0
        &&& self.pending_indents == 0
        &&& (self.indent_stack@.len() == 0 || self.position.column != 1)
        &&& (self.last_newline is None || self.multiline_mode)
    }

    /// `self` was reached from `old` while reading one token: as `steps_from`, except that the
    /// bracket nesting may change.
    closed spec fn scanned_from(&self, old: &Self) -> bool {
        &&& self.wf()
        &&& self.version == old.version
        &&& self.source == old.source
        &&& self.multiline_mode == old.multiline_mode
        &&& self.line_continuation == old.line_continuation
        &&& self.offset >= old.offset
        &&& (old.offset != usize::MAX ==> self.offset != usize::MAX)
        &&& self.chars@.len() <= old.chars@.len()
        &&& self.emitted == old.emitted
        &&& self.dedents == old.dedents
        &&& self.pushes@ >= old.pushes@
        &&& self.start_offset == old.start_offset
        &&& self.errors_out == old.errors_out
    }

    /// The tokenizer's internal invariant.
    pub closed spec fn wf(&self) -> bool {
        &&& self.wf_open()
        &&& self.chars@.len() == 0 && self.indent_stack@.len() > 0 ==> self.errors_out@ + self.error_stack@.len() > 0
    }

    /// The invariant, except for what holds once the input is exhausted.
    closed spec fn wf_open(&self) -> bool {
        &&& self.wf_core()
        &&& self.position.column <= 8 * self.consumed() + 4
        &&& self.chars@.len() == 0 && self.position.column != 1 ==> self.indent_stack@.len() == 0
    }

    /// The invariant with a looser bound on the column.
    closed spec fn wf_core(&self) -> bool {
        let n = self.source@.len();
        let eff = self.consumed();
        &&& n <= max_source_len()
        &&& self.offset == usize::MAX || self.offset <= n
        &&& self.offset != usize::MAX ==> self.chars@ == self.source@.subrange(self.offset as int, n as int)
        &&& self.offset == usize::MAX ==> self.chars@.len() == 0
        &&& self.start_offset <= n || self.start_offset == usize::MAX
        &&& 1 <= self.position.line <= 2 * eff + 1
        &&& 1 <= self.position.column <= 8 * eff + 8
        &&& self.start_position.line <= 2 * n + 1
        &&& self.start_position.column <= 8 * n + 4
        &&& self.indent_stack@.len() <= self.pushes@ <= eff
        &&& self.emitted@ + (if self.pending_indents > 0 { self.pending_indents as int } else { 0 }) <= self.pushes@
        &&& self.pending_indents - self.indent_stack@.len() >= -(self.pushes@ + self.emitted@)
        &&& forall|i: int| 0 <= i < self.indent_stack@.len() ==> #[trigger] self.indent_stack@[i] <= 4 * n
        &&& forall|i: int| 0 <= i < self.error_stack@.len() ==> (#[trigger] self.error_stack@[i]).0 is Error
        &&& self.emitted@ - self.dedents@ == self.indent_stack@.len() - self.pending_indents - self.mismatches@
        &&& self.mismatches@ <= self.errors_out@ + self.error_stack@.len()
        &&& self.pending_indents <= self.indent_stack@.len()
    }

    /// Creates a tokenizer for `source` with the settings of `version`.
    pub fn new(version: &'v GDScriptBuild, source: &str) -> (r: Self)
        requires
            source@.len() <= max_source_len(),
        ensures
            r.wf(),
            r.src() == source@,
            r.rest() == source@,
            !r.finished(),
            r.pos() == (Position { line: 1, column: 1 }),
            !r.multiline(),
            r.pending_errors() == 0,
            r.build() == *version,
            r.indents_returned() == 0,
            r.dedents_returned() == 0,
            r.unindent_mismatches() == 0,
            r.open_levels() == 0,
            r.errors_returned() == 0,
            r.pending_newline() is None,
            r.pending_layout() == 0,
            source@.len() > 0 && starts_content(source@[0]) && source@[0] != '\\' ==> r.at_token(),
            r.after_operand() == false,
            r.paren_top() is None,
    {
        let chars = str_chars(source);
        let r = TokenizerText {
            version,
            chars: NPeekable::new(chars.clone()),
            source: chars,
            start_offset: 0,
            offset: 0,
            start_position: Position { line: 0, column: 0 },
            position: Position { line: 1, column: 1 },
            line_continuation: false,
            multiline_mode: false,
            error_stack: Vec::new(),
            last_token: None,
            last_newline: None,
            pending_indents: 0,
            indent_stack: Vec::new(),
            paren_stack: Vec::new(),
            indent_char: None,
            pushes: Ghost(0),
            emitted: Ghost(0),
            dedents: Ghost(0),
            mismatches: Ghost(0),
            errors_out: Ghost(0),
        };
        assert(r.source@.subrange(0, r.source@.len() as int) =~= r.source@);
        r
    }

    /// The character `offset` places ahead, or `'\0'` past the end.
    fn peek(&mut self, offset: usize) -> (r: char)
        requires
            old(self).wf(),
        ensures
            *final(self) == *old(self),
            r == if offset < old(self).chars@.len() { old(self).chars@[offset as int] } else { '\0' },
    {
        match self.chars.peek(offset) {
            Some(c) => c,
            None => '\0',
        }
    }

    /// Fields that only `set_multiline_mode` and `next` change.
    closed spec fn same_frame(&self, other: &Self) -> bool {
        &&& self.version == other.version
        &&& self.source == other.source
        &&& self.multiline_mode == other.multiline_mode
        &&& self.line_continuation == other.line_continuation
        &&& self.paren_stack == other.paren_stack
        &&& self.start_offset == other.start_offset
        &&& self.start_position == other.start_position
    }

    /// Pairs `token` with the span from the token start to the current position, and records its
    /// kind as the last token.
    fn span_token_and_set_last(&mut self, token: Token) -> (r: Spanned<Token>)
        ensures
            r.0 == token,
            r.1 == (Span { start: old(self).start_position, end: old(self).position }),
            *final(self) == (TokenizerText { last_token: Some(spec_token_type(token)), ..*old(self) }),
    {
        let span = Span::new(self.start_position, self.position);
        self.last_token = Some(token.typ());
        (token, span)
    }

    /// Queues an error token spanning the current token.
    fn push_error(&mut self, msg: &str)
        requires
            old(self).wf_core(),
        ensures
            final(self).wf_core(),
            final(self).same_frame(&*old(self)),
            final(self).chars == old(self).chars,
            final(self).offset == old(self).offset,
            final(self).position == old(self).position,
            final(self).pending_indents == old(self).pending_indents,
            final(self).indent_stack == old(self).indent_stack,
            final(self).indent_char == old(self).indent_char,
            final(self).pushes == old(self).pushes,
            final(self).emitted == old(self).emitted,
            final(self).dedents == old(self).dedents,
            final(self).last_newline == old(self).last_newline,
            final(self).error_stack@.len() == old(self).error_stack@.len() + 1,
            *final(self) == (TokenizerText {
                error_stack: final(self).error_stack,
                last_token: Some(TokenType::Error),
                ..*old(self)
            }),
            final(self).error_stack@ == old(self).error_stack@.push((final(self).error_stack@.last().0,
                Span { start: old(self).start_position, end: old(self).position })),
            error_with(final(self).error_stack@.last().0, msg@),
    {
        let token = error_token(msg);
        let error = self.span_token_and_set_last(token);
        self.error_stack.push(error);
    }

    /// Queues an error token spanning the single current character.
    fn push_single_char_error(&mut self, msg: &str)
        requires
            old(self).wf_core(),
        ensures
            final(self).wf_core(),
            final(self).same_frame(&*old(self)),
            final(self).chars == old(self).chars,
            final(self).offset == old(self).offset,
            final(self).position == old(self).position,
            final(self).pending_indents == old(self).pending_indents,
            final(self).indent_stack == old(self).indent_stack,
            final(self).indent_char == old(self).indent_char,
            final(self).pushes == old(self).pushes,
            final(self).emitted == old(self).emitted,
            final(self).dedents == old(self).dedents,
            final(self).last_newline == old(self).last_newline,
            final(self).error_stack@.len() == old(self).error_stack@.len() + 1,
            *final(self) == (TokenizerText {
                error_stack: final(self).error_stack,
                last_token: Some(TokenType::Error),
                ..*old(self)
            }),
            final(self).error_stack@ == old(self).error_stack@.push((final(self).error_stack@.last().0, Span {
                start: Position { line: old(self).start_position.line, column: old(self).position.column },
                end: Position { line: old(self).position.line, column: (old(self).position.column + 1) as usize },
            })),
            error_with(final(self).error_stack@.last().0, msg@),
    {
        let token = error_token(msg);
        let mut spanned = self.span_token_and_set_last(token);
        spanned.1.start.column = self.position.column;
        spanned.1.end.column = self.position.column + 1;
        self.error_stack.push(spanned);
    }

    /// Moves to the next line, first recording a newline token if `make_token` is set and none is
    /// pending.
    fn newline(&mut self, make_token: bool)
        requires
            old(self).wf_core(),
            old(self).position.line <= 2 * old(self).consumed(),
        ensures
            final(self).wf_open(),
            final(self).same_frame(&*old(self)),
            final(self).chars == old(self).chars,
            final(self).offset == old(self).offset,
            final(self).position == (Position { line: (old(self).position.line + 1) as usize, column: 1 }),
            final(self).errors_out == old(self).errors_out,
            final(self).pending_indents == old(self).pending_indents,
            final(self).indent_stack == old(self).indent_stack,
            final(self).indent_char == old(self).indent_char,
            final(self).pushes == old(self).pushes,
            final(self).emitted == old(self).emitted,
            final(self).dedents == old(self).dedents,
            final(self).error_stack == old(self).error_stack,
            old(self).last_newline is Some ==> final(self).last_newline == old(self).last_newline
                && final(self).last_token == old(self).last_token,
            !make_token ==> final(self).last_newline == old(self).last_newline
                && final(self).last_token == old(self).last_token,
            make_token && old(self).last_newline is None ==> final(self).last_newline == Some((
                old(self).line_continuation,
                Span {
                    start: Position { line: old(self).position.line, column: (old(self).position.column - 1) as usize },
                    end: old(self).position,
                },
            )),
    {
        if make_token && self.last_newline.is_none() {
            let start = Position { line: self.position.line, column: self.position.column - 1 };
            let end = Position { line: self.position.line, column: self.position.column };
            self.last_token = Some(TokenType::Newline);
            self.last_newline = Some((self.line_continuation, Span::new(start, end)));
        }
        self.position.line = self.position.line + 1;
        self.position.column = 1;
    }

    /// Consumes and returns the next character. When that was the last character, the final newline
    /// token is recorded and all indentation levels are closed.
    fn advance(&mut self) -> (r: char)
        requires
            old(self).wf_core(),
            old(self).chars@.len() > 0,
        ensures
            final(self).wf(),
            final(self).same_frame(&*old(self)),
            r == old(self).chars@[0],
            final(self).chars@ == old(self).chars@.drop_first(),
            final(self).offset == old(self).offset + 1,
            final(self).errors_out == old(self).errors_out,
            old(self).last_newline is Some ==> final(self).last_newline == old(self).last_newline,
            final(self).emitted == old(self).emitted,
            final(self).dedents == old(self).dedents,
            final(self).pushes == old(self).pushes,
            final(self).error_stack == old(self).error_stack,
            final(self).indent_char == old(self).indent_char,
            final(self).position.line <= 2 * final(self).consumed(),
            final(self).chars@.len() > 0 ==> final(self).position == (Position {
                line: old(self).position.line,
                column: (old(self).position.column + 1) as usize,
            }) && final(self).pending_indents == old(self).pending_indents
                && final(self).indent_stack == old(self).indent_stack
                && final(self).last_token == old(self).last_token
                && final(self).last_newline == old(self).last_newline,
            final(self).chars@.len() == 0 ==> final(self).position.column == 1
                && final(self).indent_stack@.len() == 0 && final(self).last_newline is Some
                && final(self).pending_indents == old(self).pending_indents - old(self).indent_stack@.len(),
        decreases old(self).chars@.len(), 1int,
    {
        let ch = match self.chars.next() {
            Some(c) => c,
            None => {
                proof { assert(false); }
                '\0'
            }
        };
        self.offset = self.offset + 1;
        self.position.column = self.position.column + 1;
        proof {
            assert(self.source@.subrange(old(self).offset as int, self.source@.len() as int).drop_first()
                =~= self.source@.subrange(self.offset as int, self.source@.len() as int));
        }
        if self.is_at_end() {
            self.newline(true);
            self.check_indent();
        }
        ch
    }

    /// Reports mixed tabs and spaces in indentation, unless allowed on this line.
    fn check_mixed_indentation(&mut self, mixed: bool)
        requires
            old(self).wf(),
        ensures
            final(self).wf(),
            final(self).same_frame(&*old(self)),
            final(self).chars == old(self).chars,
            final(self).offset == old(self).offset,
            final(self).position == old(self).position,
            final(self).pending_indents == old(self).pending_indents,
            final(self).indent_stack == old(self).indent_stack,
            final(self).indent_char == old(self).indent_char,
            final(self).pushes == old(self).pushes,
            final(self).emitted == old(self).emitted,
            final(self).dedents == old(self).dedents,
            final(self).last_newline == old(self).last_newline,
            ({
                let reported = mixed && (!old(self).version.allow_mixed_indentation_when_multiline
                    || (!old(self).line_continuation && !old(self).multiline_mode));
                &&& !reported ==> *final(self) == *old(self)
                &&& reported ==> *final(self) == (TokenizerText {
                    error_stack: final(self).error_stack,
                    last_token: Some(TokenType::Error),
                    ..*old(self)
                })
                &&& reported ==> final(self).error_stack@ == old(self).error_stack@.push((
                    final(self).error_stack@.last().0,
                    Span { start: Position { line: old(self).position.line, column: 1 }, end: old(self).position },
                ))
                &&& reported ==> error_with(final(self).error_stack@.last().0,
                    "Mixed use of tabs and spaces for indentation."@)
            }),
    {
        if mixed && (!self.version.allow_mixed_indentation_when_multiline || (!self.line_continuation
            && !self.multiline_mode)) {
            let token = error_token("Mixed use of tabs and spaces for indentation.");
            let mut spanned = self.span_token_and_set_last(token);
            spanned.1.start.line = self.position.line;
            spanned.1.start.column = 1;
            self.error_stack.push(spanned);
        }
    }

    /// Closes every indentation level (at the end of the input).
    fn dedent_all(&mut self)
        requires
            old(self).wf_core(),
        ensures
            final(self).wf_core(),
            *final(self) == (TokenizerText {
                pending_indents: final(self).pending_indents,
                indent_stack: final(self).indent_stack,
                ..*old(self)
            }),
            final(self).pending_indents == old(self).pending_indents - old(self).indent_stack@.len(),
            final(self).indent_stack@.len() == 0,
    {
        let len = self.indent_stack.len();
        self.pending_indents = self.pending_indents - len as isize;
        self.indent_stack.clear();
    }

    /// `self` was reached from `old` by consuming input: the invariant holds, the frame is kept,
    /// the input only shrinks and no indent token was produced.
    closed spec fn steps_from(&self, old: &Self) -> bool {
        &&& self.wf()
        &&& self.same_frame(old)
        &&& self.offset >= old.offset
        &&& (old.offset != usize::MAX ==> self.offset != usize::MAX)
        &&& self.chars@.len() <= old.chars@.len()
        &&& self.emitted == old.emitted
        &&& self.dedents == old.dedents
        &&& self.pushes@ >= old.pushes@
        &&& self.errors_out == old.errors_out
        &&& (old.last_newline is Some ==> self.last_newline == old.last_newline)
    }

    /// Consumes characters equal to `c` while they last. Returns how many were consumed.
    fn advance_while_eq(&mut self, c: char, max: usize) -> (n: usize)
        requires
            old(self).wf(),
            old(self).offset != usize::MAX,
            max <= run_len(old(self).chars@, 0, c),
        ensures
            final(self).steps_from(&*old(self)),
            final(self).pushes == old(self).pushes,
            n == max,
            final(self).chars@ == old(self).chars@.skip(n as int),
            final(self).offset == old(self).offset + n,
            final(self).error_stack == old(self).error_stack,
    {
        let mut n: usize = 0;
        while n < max
            invariant
                self.steps_from(&*old(self)),
                self.pushes == old(self).pushes,
                self.error_stack == old(self).error_stack,
                n <= max <= run_len(old(self).chars@, 0, c),
                self.chars@ == old(self).chars@.skip(n as int),
                self.offset == old(self).offset + n,
                old(self).offset != usize::MAX,
            decreases max - n,
        {
            proof { lemma_run_len_index(old(self).chars@, 0, c, n as int); }
            let ghost before = self.chars@;
            self.advance();
            n = n + 1;
            assert(before.drop_first() =~= old(self).chars@.skip(n as int));
        }
        n
    }

    /// Reads a doubled operator character that may be a version-control conflict marker (seven
    /// or more of `test`). The first `test` has been consumed and the next character is `test`.
    fn check_vcs_marker(&mut self, test: char, double_token: Token) -> (r: Spanned<Token>)
        requires
            old(self).wf(),
            old(self).offset != usize::MAX,
            old(self).chars@.len() > 0,
            old(self).chars@[0] == test,
            test != '\0',
        ensures
            final(self).steps_from(&*old(self)),
            final(self).pushes == old(self).pushes,
            final(self).error_stack == old(self).error_stack,
            ({
                let k = run_len(old(self).chars@, 1, test);
                let m = if 2 + k >= 7 { 1 + k } else { 1 };
                &&& final(self).chars@ == old(self).chars@.skip(m as int)
                &&& final(self).offset == old(self).offset + m
                &&& r.0 == if 2 + k >= 7 { Token::VcsConflictMarker } else { double_token }
            }),
            r.1.start == old(self).start_position,
    {
        let mut chars: usize = 2;
        let mut next: usize = 1;
        loop
            invariant_except_break
                *self == *old(self),
                old(self).wf(),
                test != '\0',
                1 <= next <= old(self).chars@.len(),
                chars == next + 1,
                run_len(old(self).chars@, 1, test) == (next - 1) + run_len(old(self).chars@, next as int, test),
            ensures
                *self == *old(self),
                1 <= next <= old(self).chars@.len(),
                chars == next + 1,
                run_len(old(self).chars@, 1, test) == next - 1,
            decreases old(self).chars@.len() - next,
        {
            let c = self.peek(next);
            if c != test {
                break;
            }
            assert(run_len(old(self).chars@, next as int, test) == 1 + run_len(old(self).chars@, next + 1, test));
            chars = chars + 1;
            next = next + 1;
        }
        proof {
            assert(run_len(old(self).chars@, 0, test) == 1 + run_len(old(self).chars@, 1, test));
        }
        if chars >= 7 {
            self.advance_while_eq(test, chars - 1);
            self.span_token_and_set_last(Token::VcsConflictMarker)
        } else {
            self.advance_while_eq(test, 1);
            self.span_token_and_set_last(double_token)
        }
    }

    /// Reads an annotation name after `@`.
    fn annotation(&mut self) -> (r: Spanned<Token>)
        requires
            old(self).wf(),
            old(self).offset != usize::MAX,
            old(self).start_offset <= old(self).offset,
        ensures
            final(self).steps_from(&*old(self)),
            final(self).pushes == old(self).pushes,
            ({
                let a: nat = if old(self).chars@.len() > 0 && spec_is_godot_xid_start(old(self).chars@[0]) { 1 } else { 0 };
                &&& final(self).offset == old(self).offset + a + xid_run(old(self).chars@.skip(a as int))
                &&& r.0 matches Token::Annotation(s)
                    && s@ == final(self).source@.subrange(old(self).start_offset as int, final(self).offset as int)
                &&& (a == 0 <==> final(self).error_stack@.len() == old(self).error_stack@.len() + 1)
                &&& a == 1 ==> final(self).error_stack == old(self).error_stack
            }),
            r.1.start == old(self).start_position,
    {
        let first = self.peek(0);
        let ghost a: nat = if old(self).chars@.len() > 0 && spec_is_godot_xid_start(old(self).chars@[0]) { 1 } else { 0 };
        if first.is_godot_xid_start() {
            self.advance();
        } else {
            self.push_error("Expected annotation identifier after \"@\".");
        }
        assert(self.chars@ =~= old(self).chars@.skip(a as int));
        self.advance_xid_run();
        let text = chars_between(&self.source, self.start_offset, self.offset);
        let token = Token::Annotation(string_from_chars(text.as_slice()));
        self.span_token_and_set_last(token)
    }

    /// Consumes the longest run of identifier-continuing characters.
    fn advance_xid_run(&mut self)
        requires
            old(self).wf(),
            old(self).offset != usize::MAX,
        ensures
            final(self).steps_from(&*old(self)),
            final(self).pushes == old(self).pushes,
            final(self).error_stack == old(self).error_stack,
            final(self).offset == old(self).offset + xid_run(old(self).chars@),
            final(self).chars@ == old(self).chars@.skip(xid_run(old(self).chars@) as int),
    {
        loop
            invariant_except_break
                self.steps_from(&*old(self)),
                self.pushes == old(self).pushes,
                self.error_stack == old(self).error_stack,
                old(self).offset != usize::MAX,
                self.offset >= old(self).offset,
                self.offset <= old(self).offset + old(self).chars@.len(),
                self.chars@ == old(self).chars@.skip(self.offset - old(self).offset),
                xid_run(old(self).chars@) == (self.offset - old(self).offset) + xid_run(self.chars@),
            ensures
                self.steps_from(&*old(self)),
                self.pushes == old(self).pushes,
                self.error_stack == old(self).error_stack,
                self.offset >= old(self).offset,
                self.offset <= old(self).offset + old(self).chars@.len(),
                self.chars@ == old(self).chars@.skip(self.offset - old(self).offset),
                xid_run(old(self).chars@) == self.offset - old(self).offset,
            decreases self.chars@.len(),
        {
            let c = self.peek(0);
            if !is_xid_continue(c) {
                break;
            }
            let ghost before = self.chars@;
            let ghost k = self.offset - old(self).offset;
            self.advance();
            assert(before.drop_first() =~= old(self).chars@.skip(k + 1));
        }
    }

    /// Reads an identifier, keyword or constant whose first character has been consumed.
    fn potential_identifier(&mut self, start_char: char) -> (r: Spanned<Token>)
        requires
            old(self).wf(),
            old(self).offset != usize::MAX,
            old(self).start_offset + 1 == old(self).offset,
            old(self).source@[old(self).start_offset as int] == start_char,
        ensures
            final(self).steps_from(&*old(self)),
            final(self).pushes == old(self).pushes,
            final(self).error_stack == old(self).error_stack,
            final(self).offset == old(self).offset + xid_run(old(self).chars@),
            is_word_token(r.0, final(self).source@.subrange(old(self).start_offset as int, final(self).offset as int),
                old(self).version.has_when),
            r.1.start == old(self).start_position,
            final(self).chars@.len() > 0 || old(self).chars@.len() == 0 ==> final(self).indent_stack == old(self).indent_stack
                && final(self).pending_indents == old(self).pending_indents,
            old(self).chars@.len() == 0 ==> final(self).last_newline == old(self).last_newline,
            final(self).chars@.len() == 0 && old(self).chars@.len() > 0 ==> final(self).last_newline is Some
                && final(self).indent_stack@.len() == 0
                && final(self).pending_indents == old(self).pending_indents - old(self).indent_stack@.len(),
    {
        let mut only_ascii = (start_char as u32) < 128;
        let ghost start = self.start_offset as int;
        proof {
            let w = self.source@.subrange(start, self.offset as int);
            assert(w.len() == 1 && w[0] == start_char);
        }
        while is_xid_continue(self.peek(0))
            invariant
                self.steps_from(&*old(self)),
                self.pushes == old(self).pushes,
                self.error_stack == old(self).error_stack,
                old(self).offset != usize::MAX,
                start == old(self).start_offset,
                start + 1 == old(self).offset,
                self.offset >= old(self).offset,
                self.offset <= old(self).offset + old(self).chars@.len(),
                self.chars@ == old(self).chars@.skip(self.offset - old(self).offset),
                xid_run(old(self).chars@) == (self.offset - old(self).offset) + xid_run(self.chars@),
                old(self).source@[start] == start_char,
                only_ascii == all_ascii(self.source@.subrange(start, self.offset as int)),
                self.chars@.len() > 0 || old(self).chars@.len() == 0 ==> self.indent_stack == old(self).indent_stack
                    && self.pending_indents == old(self).pending_indents,
                old(self).chars@.len() == 0 ==> self.last_newline == old(self).last_newline,
                self.chars@.len() == 0 && old(self).chars@.len() > 0 ==> self.last_newline is Some
                    && self.indent_stack@.len() == 0
                    && self.pending_indents == old(self).pending_indents - old(self).indent_stack@.len(),
            decreases self.chars@.len(),
        {
            let ghost before = self.chars@;
            let ghost prev_offset = self.offset as int;
            let ch = self.advance();
            only_ascii = only_ascii && (ch as u32) < 128;
            assert(before.drop_first() =~= old(self).chars@.skip(self.offset - old(self).offset));
            proof {
                assert(self.source@[prev_offset] == ch);
                let p = self.source@.subrange(start, prev_offset);
                let w = self.source@.subrange(start, self.offset as int);
                assert(w =~= p.push(ch));
                if all_ascii(w) {
                    assert forall|i: int| 0 <= i < p.len() implies (#[trigger] p[i] as u32) < 128 by {
                        assert(w[i] == p[i]);
                    }
                    assert(w[w.len() - 1] == ch);
                }
                if all_ascii(p) && (ch as u32) < 128 {
                    assert forall|i: int| 0 <= i < w.len() implies (#[trigger] w[i] as u32) < 128 by {
                        if i < p.len() {
                            assert(w[i] == p[i]);
                        }
                    }
                }
            }
        }
        let len = self.offset - self.start_offset;
        let text = chars_between(&self.source, self.start_offset, self.offset);
        assert(text@ == self.source@.subrange(start, self.offset as int));
        if len == 1 && start_char == '_' {
            return self.span_token_and_set_last(Token::Underscore);
        }
        if !only_ascii {
            let token = Token::Identifier(string_from_chars(text.as_slice()));
            return self.span_token_and_set_last(token);
        }
        let matched = match keyword(text.as_slice(), self.version.has_when) {
            Some(t) => t,
            None => Token::Identifier(string_from_chars(text.as_slice())),
        };
        self.span_token_and_set_last(matched)
    }

    /// Consumes digits of `base` and `_` separators, reporting adjacent separators. Returns
    /// whether a digit was consumed.
    fn number_digits(&mut self, base: u32, check_underscores: bool) -> (saw_digit: bool)
        requires
            old(self).wf(),
            old(self).offset != usize::MAX,
        ensures
            final(self).steps_from(&*old(self)),
            final(self).pushes == old(self).pushes,
            final(self).start_offset == old(self).start_offset,
            forall|i: int| old(self).offset <= i < final(self).offset ==>
                spec_is_digit_in(#[trigger] final(self).source@[i], base) || final(self).source@[i] == '_',
            saw_digit <==> exists|i: int| old(self).offset <= i < final(self).offset
                && #[trigger] final(self).source@[i] != '_',
            final(self).offset == final(self).source@.len() || !(spec_is_digit_in(final(self).source@[final(self).offset as int], base)
                || final(self).source@[final(self).offset as int] == '_'),
            final(self).error_stack@.subrange(0, old(self).error_stack@.len() as int) == old(self).error_stack@,
            final(self).error_stack@.len() == old(self).error_stack@.len() + (if check_underscores {
                adjacent_underscores(final(self).source@, old(self).offset as int, final(self).offset as int)
            } else {
                0
            }),
            forall|i: int| old(self).error_stack@.len() <= i < final(self).error_stack@.len() ==> error_with(
                (#[trigger] final(self).error_stack@[i]).0, underscore_message(old(self).version.has_new_number_underscore_parsing)),
    {
        let mut previous_was_underscore = false;
        let mut saw_digit = false;
        let ghost e0 = self.error_stack@;
        loop
            invariant_except_break
                self.steps_from(&*old(self)),
                self.pushes == old(self).pushes,
                old(self).offset != usize::MAX,
                self.offset != usize::MAX,
                forall|i: int| old(self).offset <= i < self.offset ==>
                    spec_is_digit_in(#[trigger] self.source@[i], base) || self.source@[i] == '_',
                saw_digit <==> exists|i: int| old(self).offset <= i < self.offset && #[trigger] self.source@[i] != '_',
                e0 == old(self).error_stack@,
                previous_was_underscore <==> self.offset > old(self).offset && self.source@[self.offset - 1] == '_',
                self.error_stack@.subrange(0, e0.len() as int) == e0,
                self.error_stack@.len() == e0.len() + (if check_underscores {
                    adjacent_underscores(self.source@, old(self).offset as int, self.offset as int)
                } else {
                    0
                }),
                forall|i: int| e0.len() <= i < self.error_stack@.len() ==> error_with(
                    (#[trigger] self.error_stack@[i]).0, underscore_message(old(self).version.has_new_number_underscore_parsing)),
            ensures
                self.steps_from(&*old(self)),
                self.pushes == old(self).pushes,
                forall|i: int| old(self).offset <= i < self.offset ==>
                    spec_is_digit_in(#[trigger] self.source@[i], base) || self.source@[i] == '_',
                saw_digit <==> exists|i: int| old(self).offset <= i < self.offset && #[trigger] self.source@[i] != '_',
                self.offset == self.source@.len() || !(spec_is_digit_in(self.source@[self.offset as int], base)
                    || self.source@[self.offset as int] == '_'),
                self.error_stack@.subrange(0, e0.len() as int) == e0,
                self.error_stack@.len() == e0.len() + (if check_underscores {
                    adjacent_underscores(self.source@, old(self).offset as int, self.offset as int)
                } else {
                    0
                }),
                forall|i: int| e0.len() <= i < self.error_stack@.len() ==> error_with(
                    (#[trigger] self.error_stack@[i]).0, underscore_message(old(self).version.has_new_number_underscore_parsing)),
            decreases self.chars@.len(),
        {
            let c = self.peek(0);
            if !(is_digit_in(c, base) || c == '_') {
                break;
            }
            proof {
                assert(self.chars@.len() > 0);
                assert(self.source@[self.offset as int] == c);
            }
            if c == '_' {
                if previous_was_underscore && check_underscores {
                    if self.version.has_new_number_underscore_parsing {
                        self.push_single_char_error("Multiple underscores cannot be adjacent in a numeric literal.");
                    } else {
                        self.push_single_char_error("Only one underscore can be used as a numeric separator.");
                    }
                }
                previous_was_underscore = true;
            } else {
                saw_digit = true;
                previous_was_underscore = false;
            }
            self.advance();
        }
        saw_digit
    }

    /// Reads what follows the first character of a number up to its digits: the `0` after a sign,
    /// and a `0x`/`0b` base prefix. Returns the base, whether digits are still needed, and whether
    /// an error was reported.
    fn number_prefix(&mut self, start_char: char) -> (r: (u32, bool, bool))
        requires
            old(self).wf(),
            old(self).offset != usize::MAX,
        ensures
            final(self).steps_from(&*old(self)),
            final(self).pushes == old(self).pushes,
            r.0 == 10 || r.0 == 16 || r.0 == 2,
            r.0 == 10 ==> !r.2 && forall|i: int| old(self).offset <= i < final(self).offset ==>
                #[trigger] final(self).source@[i] == '0',
            r.0 != 10 <==> r.1,
            r.0 == 16 ==> start_char == '0' && final(self).offset == old(self).offset + 1
                && (final(self).source@[old(self).offset as int] == 'x' || final(self).source@[old(self).offset as int] == 'X'),
            r.0 == 2 ==> start_char == '0' && final(self).offset == old(self).offset + 1
                && (final(self).source@[old(self).offset as int] == 'b' || final(self).source@[old(self).offset as int] == 'B'),
            r.0 == number_base(start_char, char_or_nul(old(self).chars@, 0), *old(self).version),
            final(self).offset == old(self).offset + number_prefix_len(start_char, char_or_nul(old(self).chars@, 0),
                *old(self).version),
    {
        if self.version.has_literal_sign_handling && (start_char == '+' || start_char == '-')
            && self.peek(0) == '0' {
            proof {
                assert(self.source@[self.offset as int] == '0');
            }
            self.advance();
        }
        if start_char != '0' {
            return (10, false, false);
        }
        let next = self.peek(0);
        proof {
            if self.chars@.len() > 0 {
                assert(self.source@[self.offset as int] == next);
            }
        }
        let base: u32 = if next == 'x' || (self.version.has_uppercase_number_types && next == 'X') {
            16
        } else if next == 'b' || (self.version.has_uppercase_number_types && next == 'B') {
            2
        } else {
            return (10, false, false);
        };
        self.advance();
        let mut has_error = false;
        if self.version.has_new_number_underscore_parsing && self.peek(0) == '_' {
            let mut msg = String::new();
            append_str(&mut msg, "Unexpected underscore after \"0");
            push_char(&mut msg, next);
            append_str(&mut msg, "\".");
            self.push_single_char_error(msg.as_str());
            has_error = true;
        }
        (base, true, has_error)
    }

    /// Reads a decimal point and the digits after it, when a `.` (not `..`) follows. Returns
    /// whether the number now has a decimal point, and whether an error was reported.
    fn number_fraction(&mut self, base: u32, has_decimal: bool, has_error: bool) -> (r: (bool, bool))
        requires
            old(self).wf(),
            old(self).offset != usize::MAX,
            base == 10 || base == 16 || base == 2,
        ensures
            final(self).steps_from(&*old(self)),
            final(self).pushes == old(self).pushes,
            has_decimal ==> r.0,
            has_error ==> r.1,
            final(self).offset > old(self).offset ==> r.0 && final(self).source@[old(self).offset as int] == '.',
            forall|i: int| old(self).offset + 1 <= i < final(self).offset ==>
                ('0' <= #[trigger] final(self).source@[i] && final(self).source@[i] <= '9') || final(self).source@[i] == '_',
            base == 10 && !has_error && r.0 && !has_decimal ==> final(self).offset > old(self).offset,
            base != 10 ==> final(self).offset == old(self).offset,
            ({
                let go = char_or_nul(old(self).chars@, 0) == '.' && char_or_nul(old(self).chars@, 1) != '.'
                    && base == 10 && !has_decimal && !has_error;
                &&& !go ==> final(self).offset == old(self).offset
                &&& go ==> final(self).offset >= old(self).offset + 1 && (final(self).offset == final(self).source@.len()
                    || !(spec_is_digit_in(final(self).source@[final(self).offset as int], 10)
                    || final(self).source@[final(self).offset as int] == '_'))
            }),
    {
        let mut has_decimal = has_decimal;
        let mut has_error = has_error;
        if !(self.peek(0) == '.' && self.peek(1) != '.') {
            return (has_decimal, has_error);
        }
        proof {
            assert(self.source@[self.offset as int] == '.');
        }
        if base == 10 && !has_decimal {
            has_decimal = true;
        } else if base == 10 {
            self.push_single_char_error("Cannot use a decimal point twice in a number.");
            has_error = true;
        } else if base == 16 {
            self.push_single_char_error("Cannot use a decimal point in a hexadecimal number.");
            has_error = true;
        } else {
            self.push_single_char_error("Cannot use a decimal point in a binary number.");
            has_error = true;
        }
        if !has_error {
            self.advance();
            if self.version.has_new_number_underscore_parsing && self.peek(0) == '_' {
                self.push_single_char_error("Unexpected underscore after decimal point.");
                has_error = true;
            }
            self.number_digits(10, self.version.has_new_number_underscore_parsing);
        }
        (has_decimal, has_error)
    }

    /// Reads an exponent (`e` or `E`, an optional sign, digits) when one follows. Returns whether
    /// one was read.
    fn number_exponent(&mut self) -> (has_exponent: bool)
        requires
            old(self).wf(),
            old(self).offset != usize::MAX,
        ensures
            final(self).steps_from(&*old(self)),
            final(self).pushes == old(self).pushes,
            !has_exponent ==> final(self).offset == old(self).offset,
            has_exponent ==> final(self).offset > old(self).offset && (final(self).source@[old(self).offset as int] == 'e'
                || final(self).source@[old(self).offset as int] == 'E'),
            forall|i: int| old(self).offset + 1 <= i < final(self).offset ==> is_exponent_char(#[trigger] final(self).source@[i]),
            has_exponent <==> old(self).chars@.len() > 0 && (old(self).chars@[0] == 'e' || old(self).chars@[0] == 'E'),
            !has_exponent ==> *final(self) == *old(self),
            has_exponent ==> ({
                let src = old(self).source@;
                let o = old(self).offset as int;
                let d = if o + 1 < src.len() && (src[o + 1] == '+' || src[o + 1] == '-') { o + 2 } else { o + 1 };
                let missing = !(d < src.len() && '0' <= src[d] && src[d] <= '9');
                let e = old(self).error_stack@;
                &&& d <= final(self).offset
                &&& forall|i: int| d <= i < final(self).offset ==> spec_is_digit_in(#[trigger] src[i], 10) || src[i] == '_'
                &&& final(self).offset == src.len() || !(spec_is_digit_in(src[final(self).offset as int], 10)
                    || src[final(self).offset as int] == '_')
                &&& final(self).error_stack@.subrange(0, e.len() as int) == e
                &&& final(self).error_stack@.len() == e.len() + (if missing { 1int } else { 0int })
                    + adjacent_underscores(src, d, final(self).offset as int)
                &&& missing ==> error_with(final(self).error_stack@[e.len() as int].0, "Expected exponent value after \"e\"."@)
                &&& forall|i: int| e.len() + (if missing { 1int } else { 0int }) <= i < final(self).error_stack@.len()
                    ==> error_with((#[trigger] final(self).error_stack@[i]).0, underscore_message(
                    old(self).version.has_new_number_underscore_parsing))
            }),
    {
        let e = self.peek(0);
        if !(e == 'e' || e == 'E') {
            return false;
        }
        proof {
            assert(self.source@[self.offset as int] == e);
        }
        self.advance();
        let sign = self.peek(0);
        if sign == '+' || sign == '-' {
            proof {
                assert(self.source@[self.offset as int] == sign);
            }
            self.advance();
        }
        let next = self.peek(0);
        if !('0' <= next && next <= '9') {
            self.push_single_char_error("Expected exponent value after \"e\".");
        }
        self.number_digits(10, true);
        true
    }

    /// Reads a numeric literal whose first character (a digit, `.`, `+` or `-`) has been consumed.
    #[verifier::spinoff_prover]
    #[verifier::rlimit(100)]
    fn number(&mut self, start_char: char) -> (r: Spanned<Token>)
        requires
            old(self).wf(),
            old(self).offset != usize::MAX,
            old(self).start_offset + 1 == old(self).offset,
            old(self).source@[old(self).start_offset as int] == start_char,
            ('0' <= start_char && start_char <= '9') || start_char == '.' || start_char == '+' || start_char == '-',
        ensures
            final(self).steps_from(&*old(self)),
            final(self).pushes == old(self).pushes,
            r.0 is Literal || r.0 is Error,
            r.0 matches Token::Literal(v) ==> (v is Int || v is Float) && is_number_value(v,
                without_underscores(final(self).source@.subrange(old(self).start_offset as int, final(self).offset as int))),
            r.0 is Error <==> number_rejected(without_underscores(final(self).source@.subrange(
                old(self).start_offset as int, final(self).offset as int)), old(self).version.need_digits_in_hex_and_binary),
            final(self).offset == number_end(old(self).source@, old(self).start_offset as int, *old(self).version),
    {
        let ghost a = self.start_offset as int;
        let ghost src = self.source@;
        proof {
            assert(char_or_nul(self.chars@, 0) == char_or_nul(src, a + 1));
        }
        let (base, mut need_digits, has_error) = self.number_prefix(start_char);
        let ghost o2 = self.offset as int;
        let saw_digit = self.number_digits(base, true);
        if saw_digit {
            need_digits = false;
        }
        let ghost o3 = self.offset as int;
        proof {
            lemma_digit_run(src, o2, o3, base);
            assert(char_or_nul(self.chars@, 0) == char_or_nul(src, o3));
            assert(char_or_nul(self.chars@, 1) == char_or_nul(src, o3 + 1));
        }
        let (has_decimal, has_error) = self.number_fraction(base, start_char == '.', has_error);
        let ghost o4 = self.offset as int;
        proof {
            if o4 > o3 {
                lemma_digit_run(src, o3 + 1, o4, 10);
            }
            assert(char_or_nul(self.chars@, 0) == char_or_nul(src, o4));
            assert(char_or_nul(self.chars@, 1) == char_or_nul(src, o4 + 1));
        }
        let has_exponent = if base == 10 { self.number_exponent() } else { false };
        let ghost o5 = self.offset as int;
        proof {
            if has_exponent {
                let d = if o4 + 1 < src.len() && (src[o4 + 1] == '+' || src[o4 + 1] == '-') { o4 + 2 } else { o4 + 1 };
                lemma_digit_run(src, d, o5, 10);
            }
            assert(o5 == number_end(src, a, *self.version));
        }
        if self.version.need_digits_in_hex_and_binary && need_digits {
            let msg = if base == 16 {
                "Expected hexadecimal digit after \"0x\"."
            } else {
                "Expected binary digit after \"0b\"."
            };
            proof {
                assert(base != 10);
                lemma_prefixed_number(self.source@, a, o5);
                lemma_prefixed_number_digits(self.source@, a, o2, o5);
                reveal(number_rejected);
            }
            let token = error_token(msg);
            let mut spanned = self.span_token_and_set_last(token);
            spanned.1.start.column = self.position.column;
            spanned.1.end.column = self.position.column + 1;
            return spanned;
        }
        let next = self.peek(0);
        if !has_error && has_decimal && next == '.' && self.peek(1) != '.' {
            self.push_single_char_error("Cannot use a decimal point twice in a number.");
        } else if next.is_godot_xid_start() || is_xid_continue(next) {
            self.push_error("Invalid numeric notation.");
        }
        let number = string_without_underscores(&self.source, self.start_offset, self.offset);
        proof {
            let src = self.source@;
            let t = without_underscores(src.subrange(a, o5));
            assert(self.offset == o5);
            reveal(number_rejected);
            reveal(is_number_value);
            if base == 16 || base == 2 {
                lemma_prefixed_number(src, a, o5);
                lemma_prefixed_number_digits(src, a, o2, o5);
            } else {
                lemma_decimal_number(src, a, o2, o3, o4, o5, has_decimal, has_exponent);
            }
            assert(number@ == t);
        }
        let converted = if base == 16 {
            match hex_to_int_checked(number.as_str()) {
                Some(v) => Some(Variant::Int(v)),
                None => None,
            }
        } else if base == 2 {
            match bin_to_int_checked(number.as_str()) {
                Some(v) => Some(Variant::Int(v)),
                None => None,
            }
        } else if has_decimal || has_exponent {
            Some(Variant::Float(number))
        } else {
            match to_int_checked(number.as_str()) {
                Some(v) => Some(Variant::Int(v)),
                None => None,
            }
        };
        let token = match converted {
            Some(value) => Token::Literal(value),
            None => error_token("Numeric literal cannot be represented as a 64-bit signed integer."),
        };
        self.span_token_and_set_last(token)
    }

    /// Reads the hexadecimal digits of a `\u` (four digits) or `\U` (six digits) escape. Returns
    /// `None` when the input ends first, `Some(None)` after reporting a bad digit or code point.
    fn unicode_escape(&mut self, long: bool) -> (r: Option<Option<char>>)
        requires
            old(self).wf(),
            old(self).offset != usize::MAX,
        ensures
            final(self).steps_from(&*old(self)),
            final(self).pushes == old(self).pushes,
            match unicode_escape_spec(old(self).chars@, if long { 6 } else { 4 }) {
                None => r is None,
                Some((c, k)) => r == Some(c) && final(self).chars@ == old(self).chars@.skip(k as int)
                    && final(self).offset == old(self).offset + k,
            },
    {
        let hex_len: usize = if long { 6 } else { 4 };
        let ghost cs = self.chars@;
        let mut value: u32 = 0;
        let mut i: usize = 0;
        proof {
            assert(cs.skip(0) =~= cs);
        }
        while i < hex_len
            invariant
                self.steps_from(&*old(self)),
                self.pushes == old(self).pushes,
                old(self).offset != usize::MAX,
                cs == old(self).chars@,
                hex_len == (if long { 6usize } else { 4usize }),
                i <= hex_len <= 6,
                value < pow16(i as nat),
                value == hex_prefix_value(cs, i as nat),
                hex_scan(cs, 0, hex_len as nat) == hex_scan(cs, i as nat, hex_len as nat),
                i <= cs.len(),
                self.chars@ == cs.skip(i as int),
                self.offset == old(self).offset + i,
            decreases hex_len - i,
        {
            if self.is_at_end() {
                return None;
            }
            let digit = self.peek(0);
            assert(digit == cs[i as int]);
            let d = match hex_digit(digit) {
                Some(d) => d,
                None => {
                    self.push_single_char_error("Invalid hexadecimal digit in unicode escape sequence.");
                    return Some(None);
                },
            };
            proof {
                assert(value * 16 + d < pow16((i + 1) as nat)) by (nonlinear_arith)
                    requires value < pow16(i as nat), d < 16, pow16((i + 1) as nat) == pow16(i as nat) * 16;
                assert(pow16((i + 1) as nat) <= pow16(6)) by {
                    lemma_pow16_mono((i + 1) as nat, 6);
                }
                reveal_with_fuel(pow16, 7);
                assert(pow16(6) == 16777216);
            }
            value = value * 16 + d;
            self.advance();
            i = i + 1;
            proof {
                assert(cs.skip(i - 1).drop_first() =~= cs.skip(i as int));
            }
        }
        assert(hex_scan(cs, hex_len as nat, hex_len as nat) == hex_len);
        match char_from_u32(value) {
            Some(c) => {
                proof {
                    vstd::utf8::char_u32_cast(c, value);
                }
                Some(Some(c))
            },
            None => {
                self.push_single_char_error("Invalid code point in unicode escape sequence.");
                Some(None)
            },
        }
    }

    /// Reads an escape sequence after its backslash (already consumed), appending what it stands
    /// for to `result`. Returns `false` when the input ends inside it.
    fn string_escape(&mut self, result: &mut String, typ: StringType, quote_char: char) -> (ok: bool)
        requires
            old(self).wf(),
            old(self).offset != usize::MAX,
            old(self).chars@.len() > 0,
            old(self).position.column >= 2,
        ensures
            final(self).steps_from(&*old(self)),
            final(self).pushes == old(self).pushes,
            match escape_step(old(self).chars@, typ == StringType::RegularRaw, quote_char) {
                None => !ok,
                Some((x, k)) => ok && final(result)@ == old(result)@ + x
                    && final(self).chars@ == old(self).chars@.skip(k as int)
                    && final(self).offset == old(self).offset + k,
            },
    {
        let ghost cs = self.chars@;
        if typ == StringType::RegularRaw {
            let next = self.peek(0);
            if next == quote_char || next == '\\' {
                self.advance();
                if self.is_at_end() {
                    return false;
                }
                push_char(result, '\\');
                push_char(result, next);
            } else {
                push_char(result, '\\');
                return true;
            }
            return true;
        }
        let ch = self.advance();
        if self.is_at_end() {
            return false;
        }
        let escaped: Option<char> = if ch == 'a' {
            Some('\x07')
        } else if ch == 'b' {
            Some('\x08')
        } else if ch == 'f' {
            Some('\x0C')
        } else if ch == 'n' {
            Some('\n')
        } else if ch == 'r' {
            Some('\r')
        } else if ch == 't' {
            Some('\t')
        } else if ch == 'v' {
            Some('\x0B')
        } else if ch == '\'' || ch == '"' || ch == '\\' {
            Some(ch)
        } else if ch == 'U' || ch == 'u' {
            match self.unicode_escape(ch == 'U') {
                Some(e) => e,
                None => {
                    return false;
                },
            }
        } else if ch == '\r' {
            if self.peek(0) != '\n' {
                push_char(result, ch);
                self.advance();
            } else {
                self.newline(false);
            }
            None
        } else if ch == '\n' {
            self.newline(false);
            None
        } else {
            let token = error_token("Invalid escape in string.");
            let mut spanned = self.span_token_and_set_last(token);
            spanned.1.start.column = self.position.column - 2;
            self.error_stack.push(spanned);
            None
        };
        if let Some(c) = escaped {
            push_char(result, c);
        }
        true
    }

    /// Reports an invisible text-direction control character inside a string literal.
    fn report_direction_control(&mut self, ch: char, raw: bool)
        requires
            old(self).wf(),
        ensures
            final(self).steps_from(&*old(self)),
            final(self).pushes == old(self).pushes,
            final(self).chars == old(self).chars,
            final(self).offset == old(self).offset,
            *final(self) == (TokenizerText {
                error_stack: final(self).error_stack,
                last_token: Some(TokenType::Error),
                ..*old(self)
            }),
            final(self).error_stack@ == old(self).error_stack@.push((final(self).error_stack@.last().0, Span {
                start: Position { line: old(self).start_position.line, column: old(self).position.column },
                end: Position { line: old(self).position.line, column: (old(self).position.column + 1) as usize },
            })),
            error_with(final(self).error_stack@.last().0, direction_control_message(ch, raw)),
    {
        if raw {
            self.push_single_char_error("Invisible text direction control character present in the string, use regular string literal instead of r-string.");
        } else {
            let mut msg = String::new();
            append_str(&mut msg, "Invisible text direction control character present in the string, escape it (\"\\u");
            push_hex_lower(&mut msg, ch as u32);
            append_str(&mut msg, "\") to avoid confusion.");
            self.push_single_char_error(msg.as_str());
        }
    }

    /// Reads a string literal. `start_char` is its opening quote, or the `r`, `&` or `^` prefix
    /// before it (already consumed).
    #[verifier::rlimit(100)]
    fn string(&mut self, start_char: char) -> (r: Spanned<Token>)
        requires
            old(self).wf(),
            old(self).offset != usize::MAX,
            start_char == 'r' || start_char == '&' || start_char == '^' ==> old(self).chars@.len() > 0
                && (old(self).chars@[0] == '"' || old(self).chars@[0] == '\''),
            !(start_char == 'r' || start_char == '&' || start_char == '^') ==> start_char == '"' || start_char == '\'',
            start_char == 'r' ==> old(self).version.has_raw_strings,
            old(self).start_offset + 1 == old(self).offset,
            old(self).source@[old(self).start_offset as int] == start_char,
        ensures
            final(self).steps_from(&*old(self)),
            final(self).pushes == old(self).pushes,
            r.0 matches Token::Literal(v) ==> v is String || v is StringName || v is NodePath,
            r.0 matches Token::Literal(v) ==> is_string_value(v, final(self).source@.subrange(
                old(self).start_offset as int, final(self).offset as int), old(self).version.has_raw_strings),
            r.0 is Literal || r.0 is Error,
            ({
                let cs = old(self).chars@;
                let prefixed = start_char == 'r' || start_char == '&' || start_char == '^';
                let p: int = if prefixed { 1 } else { 0 };
                let q = if prefixed { cs[0] } else { start_char };
                let ml = cs.len() >= p + 2 && cs[p] == q && cs[p + 1] == q;
                let b: int = p + if ml { 2int } else { 0int };
                match string_body(cs.skip(b), start_char == 'r', q, ml) {
                    None => r.0 is Error,
                    Some((v, m)) => final(self).offset == old(self).offset + b + m && (match r.0 {
                        Token::Literal(Variant::String(x)) => start_char != '&' && start_char != '^' && x@ == v,
                        Token::Literal(Variant::StringName(x)) => start_char == '&' && x@ == v,
                        Token::Literal(Variant::NodePath(x)) => start_char == '^' && x@ == v,
                        _ => false,
                    }),
                }
            }),
    {
        let ghost cs = self.chars@;
        let mut typ = StringType::Regular;
        let quote_char = if start_char == 'r' && self.version.has_raw_strings {
            typ = StringType::RegularRaw;
            self.advance()
        } else if start_char == '&' {
            typ = StringType::Name;
            self.advance()
        } else if start_char == '^' {
            typ = StringType::NodePath;
            self.advance()
        } else {
            start_char
        };
        let mut is_multiline = false;
        if self.peek(0) == quote_char && self.peek(1) == quote_char {
            is_multiline = true;
            self.advance();
            self.advance();
        }
        let ghost raw = start_char == 'r';
        let ghost b0 = self.offset as int;
        let ghost body = self.chars@;
        let ghost prefixed = start_char == 'r' || start_char == '&' || start_char == '^';
        let ghost pp: int = if prefixed { 1 } else { 0 };
        let ghost bb: int = pp + if is_multiline { 2int } else { 0int };
        proof {
            assert(body =~= cs.skip(bb));
            assert(b0 == old(self).offset + bb);
            assert(body.skip(0) =~= body);
        }
        let mut result = String::new();
        loop
            invariant_except_break
                self.steps_from(&*old(self)),
                self.pushes == old(self).pushes,
                old(self).offset != usize::MAX,
                b0 <= self.offset,
                self.offset - b0 <= body.len(),
                self.chars@ == body.skip(self.offset - b0),
                string_body(body, raw, quote_char, is_multiline)
                    == body_prepend(result@, (self.offset - b0) as nat, string_body(self.chars@, raw, quote_char, is_multiline)),
            invariant
                quote_char != '\0',
                raw == (typ == StringType::RegularRaw),
                raw == (start_char == 'r'),
                cs == old(self).chars@,
                prefixed == (start_char == 'r' || start_char == '&' || start_char == '^'),
                pp == (if prefixed { 1int } else { 0int }),
                prefixed ==> cs.len() > 0 && quote_char == cs[0],
                !prefixed ==> quote_char == start_char,
                is_multiline == (cs.len() >= pp + 2 && cs[pp] == quote_char && cs[pp + 1] == quote_char),
                bb == pp + if is_multiline { 2int } else { 0int },
                body == cs.skip(bb),
                b0 == old(self).offset + bb,
                (typ == StringType::Name) == (start_char == '&'),
                (typ == StringType::NodePath) == (start_char == '^'),
            ensures
                self.steps_from(&*old(self)),
                self.pushes == old(self).pushes,
                b0 <= self.offset,
                string_body(body, raw, quote_char, is_multiline) == Some((result@, (self.offset - b0) as nat)),
            decreases self.chars@.len(),
        {
            if self.is_at_end() {
                proof {
                    lemma_string_body_step(self.chars@, raw, quote_char, is_multiline);
                }
                let token = error_token("Unterminated string.");
                return self.span_token_and_set_last(token);
            }
            let ch = self.peek(0);
            let ghost here = self.chars@;
            let ghost off0 = self.offset as int;
            let ghost before = result@;
            proof {
                lemma_string_body_step(here, raw, quote_char, is_multiline);
            }
            if is_direction_control(ch) {
                self.report_direction_control(ch, typ == StringType::RegularRaw);
            }
            if ch == '\\' {
                self.advance();
                if self.is_at_end() {
                    let token = error_token("Unterminated string.");
                    return self.span_token_and_set_last(token);
                }
                if !self.string_escape(&mut result, typ, quote_char) {
                    let token = error_token("Unterminated string.");
                    return self.span_token_and_set_last(token);
                }
                proof {
                    let (x, k) = escape_step(here.skip(1), raw, quote_char)->0;
                    assert(here.skip(1).skip(k as int) =~= here.skip(1 + k as int));
                    assert(body.skip(self.offset - b0) =~= here.skip(1 + k as int));
                    lemma_body_prepend_twice(before, (off0 - b0) as nat, x, (1 + k) as nat,
                        string_body(self.chars@, raw, quote_char, is_multiline));
                }
            } else if ch == quote_char {
                self.advance();
                if is_multiline {
                    if self.peek(0) == quote_char && self.peek(1) == quote_char {
                        self.advance();
                        self.advance();
                        proof {
                            assert(result@ + Seq::<char>::empty() =~= result@);
                        }
                        break;
                    } else {
                        push_char(&mut result, quote_char);
                        proof {
                            assert(body.skip(self.offset - b0) =~= here.skip(1));
                            lemma_body_prepend_twice(before, (off0 - b0) as nat, seq![quote_char], 1,
                                string_body(self.chars@, raw, quote_char, is_multiline));
                            assert(before + seq![quote_char] =~= result@);
                        }
                    }
                } else {
                    proof {
                        assert(result@ + Seq::<char>::empty() =~= result@);
                    }
                    break;
                }
            } else {
                push_char(&mut result, ch);
                self.advance();
                proof {
                    assert(body.skip(self.offset - b0) =~= here.skip(1));
                }
                if ch == '\n' {
                    self.newline(false);
                }
                proof {
                    lemma_body_prepend_twice(before, (off0 - b0) as nat, seq![ch], 1,
                        string_body(self.chars@, raw, quote_char, is_multiline));
                    assert(before + seq![ch] =~= result@);
                }
            }
        }
        proof {
            let src = self.source@;
            let a = old(self).start_offset as int;
            let m = self.offset - b0;
            let text = src.subrange(a, self.offset as int);
            assert(cs =~= src.subrange(old(self).offset as int, src.len() as int));
            assert(text.skip(1 + bb) =~= cs.skip(bb).take(m));
            lemma_string_body_take(cs.skip(bb), m, raw, quote_char, is_multiline);
            assert(text[0] == start_char);
            assert(text[pp] == quote_char) by {
                if prefixed {
                    assert(text[1] == cs[0]);
                }
            }
            if text.len() >= pp + 3 {
                assert(text[pp + 1] == cs[pp]);
                assert(text[pp + 2] == cs[pp + 1]);
            }
            reveal(is_string_value);
        }
        let value = match typ {
            StringType::Regular | StringType::RegularRaw => Variant::String(result),
            StringType::Name => Variant::StringName(result),
            StringType::NodePath => Variant::NodePath(result),
        };
        self.span_token_and_set_last(Token::Literal(value))
    }

    /// Closes the innermost bracket with `closing`. When it was opened with `wanted`, `token` is
    /// returned; otherwise an error, after also dropping the bracket below it (as the engine does).
    fn pop_paren_or_make_error(&mut self, closing: char, wanted: char, token: Token) -> (r: Spanned<Token>)
        ensures
            *final(self) == (TokenizerText {
                paren_stack: final(self).paren_stack,
                last_token: final(self).last_token,
                ..*old(self)
            }),
            r.1 == (Span { start: old(self).start_position, end: old(self).position }),
            ({
                let ps = old(self).paren_stack@;
                let n = ps.len();
                if n > 0 && ps[n - 1] == wanted {
                    r.0 == token && final(self).paren_stack@ == ps.drop_last()
                } else if n >= 2 {
                    r.0 matches Token::Error(Variant::String(m)) && m@ == mismatch_message(closing, ps[n - 2])
                        && final(self).paren_stack@ == ps.take(n - 2)
                } else {
                    r.0 matches Token::Error(Variant::String(m)) && m@ == unopened_message(closing)
                        && final(self).paren_stack@.len() == 0
                }
            }),
    {
        let got = self.paren_stack.pop();
        if got == Some(wanted) {
            return self.span_token_and_set_last(token);
        }
        let mut msg = String::new();
        append_str(&mut msg, "Closing \"");
        push_char(&mut msg, closing);
        match self.paren_stack.pop() {
            Some(ch) => {
                append_str(&mut msg, "\" doesn't match the opening \"");
                push_char(&mut msg, ch);
                append_str(&mut msg, "\".");
                assert(old(self).paren_stack@.drop_last().drop_last() =~= old(self).paren_stack@.take(old(self).paren_stack@.len() - 2));
            },
            None => {
                append_str(&mut msg, "\" doesn't have an opening counterpart.");
            },
        }
        let error = Token::Error(Variant::String(msg));
        self.span_token_and_set_last(error)
    }

    /// Builds the error for a character that starts no token.
    fn invalid_character_message(&self, ch: char) -> (r: String)
        ensures
            r@ == invalid_character_text(ch, self.version.has_improved_invalid_character_error,
                self.version.allow_zwsp_as_whitespace),
    {
        let mut msg = String::new();
        let improved = self.version.has_improved_invalid_character_error;
        if is_godot_whitespace(ch, self.version.allow_zwsp_as_whitespace) {
            if improved {
                append_str(&mut msg, "Invalid white space character U+");
                push_hex_upper(&mut msg, ch as u32, 4);
                append_str(&mut msg, ".");
            } else {
                append_str(&mut msg, "Invalid white space character \"\\u");
                push_hex_upper(&mut msg, ch as u32, 1);
                append_str(&mut msg, "\".");
            }
        } else if improved {
            append_str(&mut msg, "Invalid character \"");
            push_char(&mut msg, ch);
            append_str(&mut msg, "\" (U+");
            push_hex_upper(&mut msg, ch as u32, 4);
            append_str(&mut msg, ").");
        } else {
            append_str(&mut msg, "Unknown character \"");
            push_char(&mut msg, ch);
            append_str(&mut msg, "\".");
        }
        assert(msg@ =~= invalid_character_text(ch, improved, self.version.allow_zwsp_as_whitespace));
        msg
    }

    /// Reads the token that starts with `ch` (already consumed).
    #[verifier::spinoff_prover]
    #[verifier::rlimit(100)]
    fn scan_token(&mut self, ch: char) -> (r: Spanned<Token>)
        requires
            old(self).wf(),
            old(self).offset != usize::MAX,
            old(self).start_offset + 1 == old(self).offset,
            old(self).source@[old(self).start_offset as int] == ch,
        ensures
            final(self).scanned_from(&*old(self)),
            !(r.0 is Eof),
            !(r.0 is Indent) && !(r.0 is Dedent),
            is_keyword_token(r.0) ==> is_word_token(r.0, final(self).source@.subrange(
                old(self).start_offset as int, final(self).offset as int), old(self).version.has_when),
            operator_text(r.0) matches Some(x) ==> final(self).source@.subrange(
                old(self).start_offset as int, final(self).offset as int) == x,
            r.0 matches Token::Annotation(a) ==> a@ == final(self).source@.subrange(
                old(self).start_offset as int, final(self).offset as int),
            r.0 matches Token::Identifier(w) ==> w@ == final(self).source@.subrange(
                old(self).start_offset as int, final(self).offset as int),
            r.0 matches Token::Literal(v) ==> (v is Int || v is Float ==> is_number_value(v,
                without_underscores(final(self).source@.subrange(old(self).start_offset as int, final(self).offset as int)))),
            r.0 matches Token::Literal(v) ==> (v is String || v is StringName || v is NodePath ==> is_string_value(v,
                final(self).source@.subrange(old(self).start_offset as int, final(self).offset as int),
                old(self).version.has_raw_strings)),
            reads_as(r.0, token_start(ch, char_or_nul(old(self).chars@, 0), char_or_nul(old(self).chars@, 1),
                *old(self).version, match old(self).last_token { Some(t) => ends_operand(t), None => false }),
                final(self).source@.subrange(old(self).start_offset as int, final(self).offset as int), ch,
                *old(self).version, innermost_paren(old(self).paren_stack@)),
            token_start(ch, char_or_nul(old(self).chars@, 0), char_or_nul(old(self).chars@, 1), *old(self).version,
                match old(self).last_token { Some(t) => ends_operand(t), None => false }) is Word
                ==> final(self).offset == old(self).offset + xid_run(old(self).chars@),
            token_start(ch, char_or_nul(old(self).chars@, 0), char_or_nul(old(self).chars@, 1), *old(self).version,
                match old(self).last_token { Some(t) => ends_operand(t), None => false }) is Number
                ==> (r.0 is Error <==> number_rejected(without_underscores(final(self).source@.subrange(
                old(self).start_offset as int, final(self).offset as int)), old(self).version.need_digits_in_hex_and_binary)),
            token_start(ch, char_or_nul(old(self).chars@, 0), char_or_nul(old(self).chars@, 1), *old(self).version,
                match old(self).last_token { Some(t) => ends_operand(t), None => false }) is Number
                ==> final(self).offset == number_end(old(self).source@, old(self).start_offset as int, *old(self).version),
            token_start(ch, char_or_nul(old(self).chars@, 0), char_or_nul(old(self).chars@, 1), *old(self).version,
                match old(self).last_token { Some(t) => ends_operand(t), None => false }) is Text
                ==> match string_literal(old(self).source@, old(self).start_offset as int) {
                    None => r.0 is Error,
                    Some((v, e)) => final(self).offset == e && string_token_is(r.0, ch, v),
                },
            token_start(ch, char_or_nul(old(self).chars@, 0), char_or_nul(old(self).chars@, 1), *old(self).version,
                match old(self).last_token { Some(t) => ends_operand(t), None => false }) is Annotation
                ==> final(self).offset == old(self).offset + (if old(self).chars@.len() > 0
                && spec_is_godot_xid_start(old(self).chars@[0]) { 1 + xid_run(old(self).chars@.skip(1)) } else {
                xid_run(old(self).chars@) }),
            token_start(ch, char_or_nul(old(self).chars@, 0), char_or_nul(old(self).chars@, 1), *old(self).version,
                match old(self).last_token { Some(t) => ends_operand(t), None => false }) is Word ==> ({
                &&& final(self).error_stack == old(self).error_stack
                &&& final(self).chars@.len() > 0 || old(self).chars@.len() == 0 ==> final(self).indent_stack
                    == old(self).indent_stack && final(self).pending_indents == old(self).pending_indents
                &&& old(self).chars@.len() == 0 ==> final(self).last_newline == old(self).last_newline
                &&& final(self).chars@.len() == 0 && old(self).chars@.len() > 0 ==> final(self).last_newline is Some
                    && final(self).indent_stack@.len() == 0
                    && final(self).pending_indents == old(self).pending_indents - old(self).indent_stack@.len()
            }),
    {
        if '0' <= ch && ch <= '9' {
            return self.number(ch);
        }
        let next = self.peek(0);
        if self.version.has_raw_strings && ch == 'r' && (next == '"' || next == '\'') {
            return self.string(ch);
        }
        if ch.is_godot_xid_start() {
            return self.potential_identifier(ch);
        }
        self.scan_symbol(ch)
    }

    /// Reads the punctuation, operator or invalid character token that starts with `ch`.
    #[verifier::spinoff_prover]
    #[verifier::rlimit(100)]
    fn scan_symbol(&mut self, ch: char) -> (r: Spanned<Token>)
        requires
            old(self).wf(),
            old(self).offset != usize::MAX,
            old(self).start_offset + 1 == old(self).offset,
            old(self).source@[old(self).start_offset as int] == ch,
            !is_ascii_digit(ch),
            !(old(self).version.has_raw_strings && ch == 'r' && (char_or_nul(old(self).chars@, 0) == '"'
                || char_or_nul(old(self).chars@, 0) == '\'')),
            !spec_is_godot_xid_start(ch),
        ensures
            final(self).scanned_from(&*old(self)),
            !(r.0 is Eof),
            !(r.0 is Indent) && !(r.0 is Dedent),
            is_keyword_token(r.0) ==> is_word_token(r.0, final(self).source@.subrange(
                old(self).start_offset as int, final(self).offset as int), old(self).version.has_when),
            operator_text(r.0) matches Some(x) ==> final(self).source@.subrange(
                old(self).start_offset as int, final(self).offset as int) == x,
            r.0 matches Token::Annotation(a) ==> a@ == final(self).source@.subrange(
                old(self).start_offset as int, final(self).offset as int),
            r.0 matches Token::Identifier(w) ==> w@ == final(self).source@.subrange(
                old(self).start_offset as int, final(self).offset as int),
            r.0 matches Token::Literal(v) ==> (v is Int || v is Float ==> is_number_value(v,
                without_underscores(final(self).source@.subrange(old(self).start_offset as int, final(self).offset as int)))),
            r.0 matches Token::Literal(v) ==> (v is String || v is StringName || v is NodePath ==> is_string_value(v,
                final(self).source@.subrange(old(self).start_offset as int, final(self).offset as int),
                old(self).version.has_raw_strings)),
            reads_as(r.0, token_start(ch, char_or_nul(old(self).chars@, 0), char_or_nul(old(self).chars@, 1),
                *old(self).version, match old(self).last_token { Some(t) => ends_operand(t), None => false }),
                final(self).source@.subrange(old(self).start_offset as int, final(self).offset as int), ch,
                *old(self).version, innermost_paren(old(self).paren_stack@)),
            token_start(ch, char_or_nul(old(self).chars@, 0), char_or_nul(old(self).chars@, 1), *old(self).version,
                match old(self).last_token { Some(t) => ends_operand(t), None => false }) is Number
                ==> (r.0 is Error <==> number_rejected(without_underscores(final(self).source@.subrange(
                old(self).start_offset as int, final(self).offset as int)), old(self).version.need_digits_in_hex_and_binary)),
            token_start(ch, char_or_nul(old(self).chars@, 0), char_or_nul(old(self).chars@, 1), *old(self).version,
                match old(self).last_token { Some(t) => ends_operand(t), None => false }) is Number
                ==> final(self).offset == number_end(old(self).source@, old(self).start_offset as int, *old(self).version),
            token_start(ch, char_or_nul(old(self).chars@, 0), char_or_nul(old(self).chars@, 1), *old(self).version,
                match old(self).last_token { Some(t) => ends_operand(t), None => false }) is Text
                ==> match string_literal(old(self).source@, old(self).start_offset as int) {
                    None => r.0 is Error,
                    Some((v, e)) => final(self).offset == e && string_token_is(r.0, ch, v),
                },
            token_start(ch, char_or_nul(old(self).chars@, 0), char_or_nul(old(self).chars@, 1), *old(self).version,
                match old(self).last_token { Some(t) => ends_operand(t), None => false }) is Annotation
                ==> final(self).offset == old(self).offset + (if old(self).chars@.len() > 0
                && spec_is_godot_xid_start(old(self).chars@[0]) { 1 + xid_run(old(self).chars@.skip(1)) } else {
                xid_run(old(self).chars@) }),
    {
        let next = self.peek(0);
        let can_precede_bin_op = match self.last_token {
            Some(t) => kind_can_precede_bin_op(t),
            None => false,
        };
        let next1 = self.peek(1);
        let is_digit_next = '0' <= next && next <= '9';
        let token = if ch == '"' || ch == '\'' {
            return self.string(ch);
        } else if ch == '@' {
            assert(self.chars@.skip(0) =~= self.chars@);
            return self.annotation();
        } else if ch == '~' {
            Token::Tilde
        } else if ch == ',' {
            Token::Comma
        } else if ch == ':' {
            Token::Colon
        } else if ch == ';' {
            Token::Semicolon
        } else if ch == '$' {
            Token::Dollar
        } else if ch == '?' {
            Token::QuestionMark
        } else if ch == '`' {
            Token::Backtick
        } else if ch == '(' {
            self.paren_stack.push('(');
            Token::ParenthesisOpen
        } else if ch == '[' {
            self.paren_stack.push('[');
            Token::BracketOpen
        } else if ch == '{' {
            self.paren_stack.push('{');
            Token::BraceOpen
        } else if ch == ')' {
            assert(self.source@.subrange(self.start_offset as int, self.offset as int) =~= seq![ch]);
            return self.pop_paren_or_make_error(ch, '(', Token::ParenthesisClose);
        } else if ch == ']' {
            assert(self.source@.subrange(self.start_offset as int, self.offset as int) =~= seq![ch]);
            return self.pop_paren_or_make_error(ch, '[', Token::BracketClose);
        } else if ch == '}' {
            assert(self.source@.subrange(self.start_offset as int, self.offset as int) =~= seq![ch]);
            return self.pop_paren_or_make_error(ch, '{', Token::BraceClose);
        } else if ch == '!' {
            if next == '=' {
                self.advance();
                Token::BangEqual
            } else {
                Token::Bang
            }
        } else if ch == '.' {
            if next == '.' {
                self.advance();
                if self.version.has_variadic_functions && self.peek(0) == '.' {
                    self.advance();
                    Token::PeriodPeriodPeriod
                } else {
                    Token::PeriodPeriod
                }
            } else if is_digit_next {
                return self.number(ch);
            } else {
                Token::Period
            }
        } else {
            return self.scan_operator(ch);
        };
        self.span_token_and_set_last(token)
    }

    /// Reads the operator or invalid character token that starts with `ch`.
    #[verifier::spinoff_prover]
    #[verifier::rlimit(100)]
    fn scan_operator(&mut self, ch: char) -> (r: Spanned<Token>)
        requires
            old(self).wf(),
            old(self).offset != usize::MAX,
            old(self).start_offset + 1 == old(self).offset,
            old(self).source@[old(self).start_offset as int] == ch,
            !is_ascii_digit(ch),
            !(old(self).version.has_raw_strings && ch == 'r' && (char_or_nul(old(self).chars@, 0) == '"'
                || char_or_nul(old(self).chars@, 0) == '\'')),
            !spec_is_godot_xid_start(ch),
            ch != '"' && ch != '\'' && ch != '@' && ch != '~' && ch != ',' && ch != ':' && ch != ';' && ch != '$' && ch != '?' && ch != '`' && ch != '(' && ch != '[' && ch != '{' && ch != ')' && ch != ']' && ch != '}' && ch != '!' && ch != '.',
        ensures
            final(self).scanned_from(&*old(self)),
            !(r.0 is Eof),
            !(r.0 is Indent) && !(r.0 is Dedent),
            is_keyword_token(r.0) ==> is_word_token(r.0, final(self).source@.subrange(
                old(self).start_offset as int, final(self).offset as int), old(self).version.has_when),
            operator_text(r.0) matches Some(x) ==> final(self).source@.subrange(
                old(self).start_offset as int, final(self).offset as int) == x,
            r.0 matches Token::Annotation(a) ==> a@ == final(self).source@.subrange(
                old(self).start_offset as int, final(self).offset as int),
            r.0 matches Token::Identifier(w) ==> w@ == final(self).source@.subrange(
                old(self).start_offset as int, final(self).offset as int),
            r.0 matches Token::Literal(v) ==> (v is Int || v is Float ==> is_number_value(v,
                without_underscores(final(self).source@.subrange(old(self).start_offset as int, final(self).offset as int)))),
            r.0 matches Token::Literal(v) ==> (v is String || v is StringName || v is NodePath ==> is_string_value(v,
                final(self).source@.subrange(old(self).start_offset as int, final(self).offset as int),
                old(self).version.has_raw_strings)),
            reads_as(r.0, token_start(ch, char_or_nul(old(self).chars@, 0), char_or_nul(old(self).chars@, 1),
                *old(self).version, match old(self).last_token { Some(t) => ends_operand(t), None => false }),
                final(self).source@.subrange(old(self).start_offset as int, final(self).offset as int), ch,
                *old(self).version, innermost_paren(old(self).paren_stack@)),
            token_start(ch, char_or_nul(old(self).chars@, 0), char_or_nul(old(self).chars@, 1), *old(self).version,
                match old(self).last_token { Some(t) => ends_operand(t), None => false }) is Number
                ==> (r.0 is Error <==> number_rejected(without_underscores(final(self).source@.subrange(
                old(self).start_offset as int, final(self).offset as int)), old(self).version.need_digits_in_hex_and_binary)),
            token_start(ch, char_or_nul(old(self).chars@, 0), char_or_nul(old(self).chars@, 1), *old(self).version,
                match old(self).last_token { Some(t) => ends_operand(t), None => false }) is Number
                ==> final(self).offset == number_end(old(self).source@, old(self).start_offset as int, *old(self).version),
            token_start(ch, char_or_nul(old(self).chars@, 0), char_or_nul(old(self).chars@, 1), *old(self).version,
                match old(self).last_token { Some(t) => ends_operand(t), None => false }) is Text
                ==> match string_literal(old(self).source@, old(self).start_offset as int) {
                    None => r.0 is Error,
                    Some((v, e)) => final(self).offset == e && string_token_is(r.0, ch, v),
                },
    {
        let next = self.peek(0);
        let can_precede_bin_op = match self.last_token {
            Some(t) => kind_can_precede_bin_op(t),
            None => false,
        };
        let next1 = self.peek(1);
        let is_digit_next = '0' <= next && next <= '9';
        let token = if ch == '+' {
            if next == '=' {
                self.advance();
                Token::PlusEqual
            } else if self.version.has_literal_sign_handling && is_digit_next && !can_precede_bin_op {
                return self.number(ch);
            } else {
                Token::Plus
            }
        } else if ch == '-' {
            if next == '=' {
                self.advance();
                Token::MinusEqual
            } else if self.version.has_literal_sign_handling && is_digit_next && !can_precede_bin_op {
                return self.number(ch);
            } else if next == '>' {
                self.advance();
                Token::ForwardArrow
            } else {
                Token::Minus
            }
        } else if ch == '*' {
            if next == '=' {
                self.advance();
                Token::StarEqual
            } else if next == '*' {
                if next1 == '=' {
                    self.advance();
                    self.advance();
                    Token::StarStarEqual
                } else {
                    self.advance();
                    Token::StarStar
                }
            } else {
                Token::Star
            }
        } else if ch == '/' {
            if next == '=' {
                self.advance();
                Token::SlashEqual
            } else {
                Token::Slash
            }
        } else if ch == '%' {
            if next == '=' {
                self.advance();
                Token::PercentEqual
            } else {
                Token::Percent
            }
        } else if ch == '^' {
            if next == '=' {
                self.advance();
                Token::CaretEqual
            } else if next == '"' || next == '\'' {
                return self.string(ch);
            } else {
                Token::Caret
            }
        } else if ch == '&' {
            if next == '&' {
                self.advance();
                Token::AmpersandAmpersand
            } else if next == '=' {
                self.advance();
                Token::AmpersandEqual
            } else if next == '"' || next == '\'' {
                return self.string(ch);
            } else {
                Token::Ampersand
            }
        } else if ch == '|' {
            if next == '|' {
                self.advance();
                Token::PipePipe
            } else if next == '=' {
                self.advance();
                Token::PipeEqual
            } else {
                Token::Pipe
            }
        } else if ch == '=' {
            if next == '=' {
                return self.check_vcs_marker('=', Token::EqualEqual);
            } else {
                Token::Equal
            }
        } else if ch == '<' {
            if next == '=' {
                self.advance();
                Token::LessEqual
            } else if next == '<' {
                if next1 == '=' {
                    self.advance();
                    self.advance();
                    Token::LessLessEqual
                } else {
                    return self.check_vcs_marker('<', Token::LessLess);
                }
            } else {
                Token::Less
            }
        } else if ch == '>' {
            if next == '=' {
                self.advance();
                Token::GreaterEqual
            } else if next == '>' {
                if next1 == '=' {
                    self.advance();
                    self.advance();
                    Token::GreaterGreaterEqual
                } else {
                    return self.check_vcs_marker('>', Token::GreaterGreater);
                }
            } else {
                Token::Greater
            }
        } else {
            let msg = self.invalid_character_message(ch);
            assert(self.source@.subrange(self.start_offset as int, self.offset as int) =~= seq![ch]);
            return self.span_token_and_set_last(Token::Error(Variant::String(msg)));
        };
        self.span_token_and_set_last(token)
    }

    /// Produces the next token, or `None` once the end-of-file token has been produced and nothing
    /// is left to report. Errors are reported as `Token::Error` tokens.
    #[verifier::spinoff_prover]
    #[verifier::rlimit(100)]
    pub fn next(&mut self) -> (r: Option<Spanned<Token>>)
        requires
            old(self).wf(),
        ensures
            final(self).wf(),
            final(self).src() == old(self).src(),
            final(self).multiline() == old(self).multiline(),
            final(self).consumed() >= old(self).consumed(),
            old(self).finished() ==> final(self).finished(),
            old(self).errors().len() > 0 ==> r == Some(old(self).errors().last())
                && final(self).errors() == old(self).errors().drop_last()
                && final(self).rest() == old(self).rest() && final(self).pos() == old(self).pos(),
            !old(self).finished() ==> r is Some,
            r is None <==> old(self).exhausted(),
            r is None ==> final(self).exhausted(),
            r matches Some(t) && t.0 is Eof ==> !old(self).finished() && final(self).finished()
                && (final(self).errors_returned() == 0 ==> final(self).exhausted()),
            final(self).indents_returned() == old(self).indents_returned()
                + (if r matches Some(t) && t.0 is Indent { 1int } else { 0int }),
            final(self).dedents_returned() == old(self).dedents_returned()
                + (if r matches Some(t) && t.0 is Dedent { 1int } else { 0int }),
            final(self).errors_returned() == old(self).errors_returned()
                + (if r matches Some(t) && t.0 is Error { 1int } else { 0int }),
            r matches Some(t) ==> (t.0 matches Token::Identifier(w) ==> w@ == final(self).token_text()),
            r matches Some(t) ==> (is_keyword_token(t.0) ==> is_word_token(t.0, final(self).token_text(),
                old(self).build().has_when)),
            r matches Some(t) ==> (operator_text(t.0) matches Some(x) ==> final(self).token_text() == x),
            r matches Some(t) ==> (t.0 matches Token::Annotation(a) ==> a@ == final(self).token_text()),
            r matches Some(t) ==> (t.0 matches Token::Literal(v) ==> (v is Int || v is Float ==>
                is_number_value(v, without_underscores(final(self).token_text())))),
            r matches Some(t) ==> (t.0 matches Token::Literal(v) ==> (v is String || v is StringName || v is NodePath
                ==> is_string_value(v, final(self).token_text(), old(self).build().has_raw_strings))),
            old(self).errors().len() == 0 && !old(self).multiline() ==> (old(self).pending_newline()
                matches Some((c, sp)) ==> r == Some((Token::Newline { continuation: c }, sp))),
            old(self).errors().len() == 0 && !old(self).multiline() && old(self).pending_newline() is Some
                && old(self).rest().len() == 0 && old(self).open_levels() == 0 && !old(self).finished()
                ==> final(self).pending_newline() is None && final(self).rest().len() == 0
                && final(self).errors().len() == 0 && final(self).pending_layout() == old(self).pending_layout()
                && final(self).open_levels() == 0 && !final(self).finished(),
            old(self).errors().len() == 0 && (old(self).pending_newline() is None || old(self).multiline())
                && old(self).pending_layout() > 0 ==> (r matches Some(t) && t.0 is Indent),
            old(self).errors().len() == 0 && (old(self).pending_newline() is None || old(self).multiline())
                && old(self).pending_layout() < 0 ==> (r matches Some(t) && t.0 is Dedent),
            old(self).errors().len() == 0 && old(self).pending_newline() is None && old(self).pending_layout() == 0
                && old(self).rest().len() == 0 && !old(self).finished() && old(self).open_levels() == 0
                ==> (r matches Some(t) && t.0 is Eof),
            old(self).at_token() ==> ({
                let rest = old(self).rest();
                let k = token_start(rest[0], char_or_nul(rest, 1), char_or_nul(rest, 2), old(self).build(),
                    old(self).after_operand());
                &&& r matches Some(t) && reads_as(t.0, k, final(self).token_text(), rest[0], old(self).build(),
                    old(self).paren_top())
                &&& final(self).token_begin() == old(self).consumed()
                &&& final(self).token_text().len() >= 1
                &&& final(self).token_text() == rest.take(final(self).token_text().len() as int)
                &&& k is Word ==> final(self).token_text().len() == 1 + xid_run(rest.drop_first())
                &&& k is Word && final(self).token_text().len() == rest.len() ==> final(self).rest().len() == 0
                    && final(self).pending_newline() is Some && final(self).errors().len() == 0
                    && final(self).open_levels() == 0 && final(self).pending_layout() == -(old(self).open_levels() as int)
                    && !final(self).finished()
                &&& k is Text ==> match string_literal(old(self).src(), old(self).consumed() as int) {
                    None => r matches Some(t) && t.0 is Error,
                    Some((v, e)) => final(self).token_begin() + final(self).token_text().len() == e
                        && (r matches Some(t) && string_token_is(t.0, rest[0], v)),
                }
                &&& k is Number ==> final(self).token_begin() + final(self).token_text().len()
                    == number_end(old(self).src(), old(self).consumed() as int, old(self).build())
                &&& k is Number ==> (r matches Some(t) && (t.0 is Error <==> number_rejected(
                    without_underscores(final(self).token_text()), old(self).build().need_digits_in_hex_and_binary)))
            }),
        decreases old(self).rest().len(),
    {
        if let Some(error) = self.error_stack.pop() {
            self.errors_out = Ghost(self.errors_out@ + 1);
            return Some(error);
        }
        let ghost before_ws = *self;
        self.skip_whitespace();
        let ghost after_ws = *self;
        let last_newline = self.last_newline;
        self.last_newline = None;
        if let Some((continuation, span)) = last_newline {
            if !self.multiline_mode {
                return Some((Token::Newline { continuation }, span));
            }
        }
        if let Some(error) = self.error_stack.pop() {
            self.errors_out = Ghost(self.errors_out@ + 1);
            return Some(error);
        }
        self.start_offset = self.offset;
        self.start_position = self.position;
        if self.pending_indents != 0 {
            self.start_position.column = 1;
            if self.pending_indents > 0 {
                self.pending_indents = self.pending_indents - 1;
                self.emitted = Ghost(self.emitted@ + 1);
                return Some(self.span_token_and_set_last(Token::Indent));
            } else {
                self.pending_indents = self.pending_indents + 1;
                self.dedents = Ghost(self.dedents@ + 1);
                let mut dedent = self.span_token_and_set_last(Token::Dedent);
                dedent.1.end.column = dedent.1.end.column + 1;
                return Some(dedent);
            }
        }
        if self.is_at_end() {
            if self.offset == usize::MAX {
                return None;
            }
            proof {
                assert(self.pending_indents == after_ws.pending_indents);
                assert(self.indent_stack == after_ws.indent_stack);
                assert(self.position == after_ws.position);
                assert(self.errors_out@ == 0 ==> self.indent_stack@.len() == 0);
            }
            self.offset = usize::MAX;
            return Some(self.span_token_and_set_last(Token::Eof));
        }
        let ch = self.advance();
        if ch == '\\' {
            if self.peek(0) == '\r' {
                if self.peek(1) != '\n' {
                    let error = error_token("Unexpected carriage return character.");
                    self.errors_out = Ghost(self.errors_out@ + 1);
                    return Some(self.span_token_and_set_last(error));
                }
                self.advance();
            }
            if self.peek(0) != '\n' {
                let error = error_token("Expected new line after \"\\\".");
                self.errors_out = Ghost(self.errors_out@ + 1);
                return Some(self.span_token_and_set_last(error));
            }
            self.advance();
            self.newline(false);
            self.line_continuation = true;
            if self.version.has_fixed_continuation_lines {
                self.skip_whitespace();
            }
            return self.next();
        }
        self.line_continuation = false;
        let token = self.scan_token(ch);
        if let Token::Error(_) = &token.0 {
            self.errors_out = Ghost(self.errors_out@ + 1);
        }
        Some(token)
    }

    /// Consumes a carriage return, reporting it unless a line feed follows.
    fn skip_carriage_return(&mut self)
        requires
            old(self).wf(),
            old(self).offset != usize::MAX,
        ensures
            final(self).steps_from(&*old(self)),
            final(self).pushes == old(self).pushes,
            ({
                let cr = old(self).chars@.len() > 0 && old(self).chars@[0] == '\r';
                let stray = cr && !(old(self).chars@.len() > 1 && old(self).chars@[1] == '\n');
                &&& !cr ==> *final(self) == *old(self)
                &&& cr ==> final(self).chars@ == old(self).chars@.drop_first()
                    && final(self).offset == old(self).offset + 1
                &&& cr && final(self).chars@.len() == 0 ==> final(self).position.column == 1 && stray
                &&& cr && !stray ==> final(self).error_stack == old(self).error_stack
                &&& stray ==> final(self).error_stack@.drop_last() == old(self).error_stack@
                    && final(self).error_stack@.len() == old(self).error_stack@.len() + 1
                    && error_with(final(self).error_stack@.last().0,
                    "Stray carriage return character in source code."@)
            }),
        decreases old(self).chars@.len(), 2int,
    {
        if self.peek(0) == '\r' {
            self.advance();
            if self.peek(0) != '\n' {
                self.push_error("Stray carriage return character in source code.");
            }
        }
    }

    /// Consumes leading tabs and spaces, returning the indentation width (a tab counts as
    /// `TAB_SIZE`) and whether a character other than `indent_char` was seen.
    fn count_indentation(&mut self, indent_char: char) -> (r: (usize, bool))
        requires
            old(self).wf(),
            old(self).offset != usize::MAX,
        ensures
            final(self).steps_from(&*old(self)),
            final(self).pushes == old(self).pushes,
            r.0 <= 4 * (final(self).offset - old(self).offset),
            final(self).error_stack == old(self).error_stack,
            forall|i: int| old(self).offset <= i < final(self).offset ==> is_indent_space(#[trigger] final(self).source@[i]),
            final(self).offset == final(self).source@.len() || !is_indent_space(final(self).source@[final(self).offset as int]),
            r.0 == indent_width(final(self).source@.subrange(old(self).offset as int, final(self).offset as int)),
            r.1 <==> exists|i: int| old(self).offset <= i < final(self).offset && #[trigger] final(self).source@[i] != indent_char,
            final(self).chars@.len() > 0 ==> final(self).indent_stack == old(self).indent_stack
                && final(self).pending_indents == old(self).pending_indents,
        decreases old(self).chars@.len(), 2int,
    {
        let mut indent_count: usize = 0;
        let mut mixed = false;
        while !self.is_at_end()
            invariant_except_break
                self.steps_from(&*old(self)),
                self.pushes == old(self).pushes,
                self.chars@.len() <= old(self).chars@.len(),
                indent_count <= 4 * (self.offset - old(self).offset),
                self.source@.len() <= max_source_len(),
                old(self).offset != usize::MAX,
                self.offset != usize::MAX,
                self.error_stack == old(self).error_stack,
                forall|i: int| old(self).offset <= i < self.offset ==> is_indent_space(#[trigger] self.source@[i]),
                indent_count == indent_width(self.source@.subrange(old(self).offset as int, self.offset as int)),
                mixed <==> exists|i: int| old(self).offset <= i < self.offset && #[trigger] self.source@[i] != indent_char,
                self.chars@.len() > 0 ==> self.indent_stack == old(self).indent_stack
                    && self.pending_indents == old(self).pending_indents,
            ensures
                self.steps_from(&*old(self)),
                self.pushes == old(self).pushes,
                indent_count <= 4 * (self.offset - old(self).offset),
                self.offset != usize::MAX,
                self.error_stack == old(self).error_stack,
                forall|i: int| old(self).offset <= i < self.offset ==> is_indent_space(#[trigger] self.source@[i]),
                self.offset == self.source@.len() || !is_indent_space(self.source@[self.offset as int]),
                indent_count == indent_width(self.source@.subrange(old(self).offset as int, self.offset as int)),
                mixed <==> exists|i: int| old(self).offset <= i < self.offset && #[trigger] self.source@[i] != indent_char,
                self.chars@.len() > 0 ==> self.indent_stack == old(self).indent_stack
                    && self.pending_indents == old(self).pending_indents,
            decreases self.chars@.len(),
        {
            let space = self.peek(0);
            if space == '\t' {
                if !self.version.expands_tabs_in_span_column {
                    self.position.column = self.position.column + (TAB_SIZE - 1);
                }
                indent_count = indent_count + TAB_SIZE;
            } else if space == ' ' {
                indent_count = indent_count + 1;
            } else {
                break;
            }
            mixed = mixed || space != indent_char;
            proof {
                let a = old(self).offset as int;
                let b = self.offset as int;
                assert(self.source@[b] == space);
                assert(self.source@.subrange(a, b + 1).drop_last() =~= self.source@.subrange(a, b));
            }
            self.advance();
        }
        (indent_count, mixed)
    }

    /// Consumes the rest of a comment line, up to and including its line feed. Returns whether
    /// the input ended first.
    fn skip_comment_line(&mut self) -> (ended: bool)
        requires
            old(self).wf(),
            old(self).offset != usize::MAX,
            old(self).chars@.len() > 0,
        ensures
            final(self).steps_from(&*old(self)),
            final(self).pushes == old(self).pushes,
            ended ==> final(self).chars@.len() == 0,
            final(self).chars@.len() < old(self).chars@.len(),
            !ended ==> final(self).position.column == 1,
        decreases old(self).chars@.len(), 2int,
    {
        while self.peek(0) != '\n' && !self.is_at_end()
            invariant
                self.steps_from(&*old(self)),
                self.pushes == old(self).pushes,
                old(self).offset != usize::MAX,
            decreases self.chars@.len(),
        {
            self.advance();
        }
        if self.is_at_end() {
            return true;
        }
        self.advance();
        self.newline(false);
        false
    }

    /// Applies the indentation width of a new line: checks the indentation character and queues
    /// indent or dedent tokens.
    #[verifier::spinoff_prover]
    #[verifier::rlimit(60)]
    fn apply_indent(&mut self, current_indent_char: char, indent_count: usize)
        requires
            old(self).wf(),
            old(self).offset != usize::MAX,
            indent_count <= 4 * old(self).source@.len(),
            indent_count > 0 ==> old(self).pushes@ < old(self).consumed(),
            old(self).chars@.len() == 0 ==> old(self).position.column == 1
                && old(self).errors_out@ + old(self).error_stack@.len() > 0,
        ensures
            final(self).wf(),
            final(self).same_frame(&*old(self)),
            final(self).chars == old(self).chars,
            final(self).offset == old(self).offset,
            final(self).emitted == old(self).emitted,
            final(self).dedents == old(self).dedents,
            final(self).pushes@ >= old(self).pushes@,
            final(self).errors_out == old(self).errors_out,
            final(self).position == old(self).position,
            final(self).last_newline == old(self).last_newline,
            old(self).indent_char is None ==> final(self).indent_char == Some(current_indent_char),
            old(self).indent_char is Some ==> final(self).indent_char == old(self).indent_char,
            final(self).indent_stack@ == indent_levels_after(old(self).indent_stack@, indent_count),
            final(self).pending_indents == old(self).pending_indents + pending_change(old(self).indent_stack@, indent_count),
            final(self).mismatches@ == old(self).mismatches@
                + (if unindent_mismatch(old(self).indent_stack@, indent_count) { 1nat } else { 0nat }),
            ({
                let e = old(self).error_stack@;
                let char_error = old(self).indent_char matches Some(c) && c != current_indent_char;
                let k = e.len() + (if char_error { 1int } else { 0int });
                &&& final(self).error_stack@.subrange(0, e.len() as int) == e
                &&& final(self).error_stack@.len() == k
                    + (if unindent_mismatch(old(self).indent_stack@, indent_count) { 1int } else { 0int })
                &&& char_error ==> error_with(final(self).error_stack@[e.len() as int].0,
                    indent_char_message(current_indent_char, old(self).indent_char->0))
                &&& unindent_mismatch(old(self).indent_stack@, indent_count) ==> error_with(
                    final(self).error_stack@[k].0, "Unindent doesn't match the previous indentation level."@)
            }),
    {
        let ghost e = self.error_stack@;
        match self.indent_char {
            Some(indent_char) => {
                if current_indent_char != indent_char {
                    let mut msg = String::new();
                    append_str(&mut msg, "Used ");
                    push_indent_char_name(&mut msg, current_indent_char);
                    append_str(&mut msg, " character for indentation instead of ");
                    push_indent_char_name(&mut msg, indent_char);
                    append_str(&mut msg, " as used before in the file.");
                    assert(msg@ =~= indent_char_message(current_indent_char, indent_char));
                    let token = Token::Error(Variant::String(msg));
                    let mut spanned = self.span_token_and_set_last(token);
                    spanned.1.start.line = self.position.line;
                    spanned.1.start.column = 1;
                    self.error_stack.push(spanned);
                }
            },
            None => {
                self.indent_char = Some(current_indent_char);
            },
        }
        let ghost e1 = self.error_stack@;
        let ghost s0 = self.indent_stack@;
        let ghost p0 = self.pending_indents as int;
        proof {
            assert(e1.subrange(0, e.len() as int) =~= e);
            assert(s0 == old(self).indent_stack@);
        }
        let mut previous_indent: usize = 0;
        if self.indent_stack.len() > 0 {
            previous_indent = self.indent_stack[self.indent_stack.len() - 1];
        }
        assert(previous_indent == innermost_indent(s0));
        if indent_count == previous_indent {
            return;
        }
        if indent_count > previous_indent {
            self.indent_stack.push(indent_count);
            self.pending_indents = self.pending_indents + 1;
            self.pushes = Ghost((self.pushes@ + 1) as nat);
        } else {
            while self.indent_stack.len() > 0 && self.indent_stack[self.indent_stack.len() - 1] > indent_count
                invariant
                    self.wf(),
                    self.same_frame(&*old(self)),
                    self.chars == old(self).chars,
                    self.offset == old(self).offset,
                    self.emitted == old(self).emitted,
                    self.dedents == old(self).dedents,
                    self.pushes == old(self).pushes,
                    self.mismatches == old(self).mismatches,
                    self.errors_out == old(self).errors_out,
                    self.position == old(self).position,
                    self.last_newline == old(self).last_newline,
                    self.indent_char == old(self).indent_char || old(self).indent_char is None,
                    old(self).indent_char is None ==> self.indent_char == Some(current_indent_char),
                    self.error_stack@ == e1,
                    old(self).offset != usize::MAX,
                    self.indent_stack@.len() <= s0.len(),
                    self.indent_stack@ == s0.subrange(0, self.indent_stack@.len() as int),
                    pop_wider(self.indent_stack@, indent_count) == pop_wider(s0, indent_count),
                    self.pending_indents == p0 - (s0.len() - self.indent_stack@.len()),
                    s0 == old(self).indent_stack@,
                decreases self.indent_stack@.len(),
            {
                proof {
                    let st = self.indent_stack@;
                    assert(pop_wider(st, indent_count) == pop_wider(st.drop_last(), indent_count));
                    assert(st.drop_last() =~= s0.subrange(0, st.len() - 1));
                }
                self.indent_stack.pop();
                self.pending_indents = self.pending_indents - 1;
            }
            let ghost kept = self.indent_stack@;
            proof {
                assert(pop_wider(kept, indent_count) == kept);
                assert(kept == pop_wider(s0, indent_count));
            }
            if (self.indent_stack.len() > 0 && self.indent_stack[self.indent_stack.len() - 1] != indent_count)
                || (self.indent_stack.len() == 0 && indent_count != 0) {
                let token = error_token("Unindent doesn't match the previous indentation level.");
                let mut spanned = self.span_token_and_set_last(token);
                spanned.1.start.line = self.position.line;
                spanned.1.start.column = 1;
                spanned.1.end.column = self.position.column + 1;
                self.error_stack.push(spanned);
                self.indent_stack.push(indent_count);
                self.pushes = Ghost((self.pushes@ + 1) as nat);
                self.mismatches = Ghost(self.mismatches@ + 1);
                proof {
                    assert(self.error_stack@.subrange(0, e.len() as int) =~= e);
                }
            }
        }
    }

    /// At the start of a line: skips blank and comment lines, then updates the indentation level
    /// (queueing indent or dedent tokens) from the leading whitespace.
    #[verifier::spinoff_prover]
    #[verifier::rlimit(100)]
    fn check_indent(&mut self)
        requires
            old(self).wf_open(),
            old(self).offset == usize::MAX ==> old(self).wf(),
            old(self).position.column == 1,
        ensures
            final(self).steps_from(&*old(self)),
            old(self).chars@.len() == 0 ==> *final(self) == (TokenizerText {
                pending_indents: final(self).pending_indents,
                indent_stack: final(self).indent_stack,
                ..*old(self)
            }) && final(self).pending_indents == old(self).pending_indents - old(self).indent_stack@.len()
                && final(self).indent_stack@.len() == 0,
            old(self).chars@.len() > 0 && starts_content(old(self).chars@[0]) ==> if old(self).line_continuation
                || old(self).multiline_mode {
                *final(self) == *old(self)
            } else {
                *final(self) == (TokenizerText {
                    pending_indents: final(self).pending_indents,
                    indent_stack: final(self).indent_stack,
                    ..*old(self)
                }) && final(self).pending_indents == old(self).pending_indents - old(self).indent_stack@.len()
                    && final(self).indent_stack@.len() == 0
            },
            ({
                let n = leading_indent(old(self).chars@);
                0 < n < old(self).chars@.len() && starts_content(old(self).chars@[n as int])
                    ==> final(self).offset == old(self).offset + n && if old(self).line_continuation
                    || old(self).multiline_mode {
                    final(self).indent_stack == old(self).indent_stack
                        && final(self).pending_indents == old(self).pending_indents
                } else {
                    let w = indent_width(old(self).chars@.take(n as int));
                    &&& final(self).indent_stack@ == indent_levels_after(old(self).indent_stack@, w as usize)
                    &&& final(self).pending_indents == old(self).pending_indents + pending_change(
                        old(self).indent_stack@, w as usize)
                }
            }),
        decreases old(self).chars@.len(), 3int,
    {
        if self.is_at_end() {
            self.dedent_all();
            return;
        }
        loop
            invariant_except_break
                self.steps_from(&*old(self)),
                self.position.column == 1,
                self.offset != usize::MAX,
                old(self).chars@.len() > 0,
                starts_content(old(self).chars@[0]) ==> *self == *old(self),
                ({
                    let n = leading_indent(old(self).chars@);
                    0 < n < old(self).chars@.len() && starts_content(old(self).chars@[n as int])
                }) ==> *self == *old(self),
            ensures
                self.steps_from(&*old(self)),
                !starts_content(old(self).chars@[0]),
                ({
                    let n = leading_indent(old(self).chars@);
                    0 < n < old(self).chars@.len() && starts_content(old(self).chars@[n as int])
                        ==> self.offset == old(self).offset + n && if old(self).line_continuation
                        || old(self).multiline_mode {
                        self.indent_stack == old(self).indent_stack
                            && self.pending_indents == old(self).pending_indents
                    } else {
                        let w = indent_width(old(self).chars@.take(n as int));
                        &&& self.indent_stack@ == indent_levels_after(old(self).indent_stack@, w as usize)
                        &&& self.pending_indents == old(self).pending_indents + pending_change(
                            old(self).indent_stack@, w as usize)
                    }
                }),
            decreases self.chars@.len(),
        {
            let current_indent_char = self.peek(0);
            if current_indent_char != ' ' && current_indent_char != '\t' && current_indent_char != '\r'
                && current_indent_char != '\n' && current_indent_char != '#' {
                if self.line_continuation || self.multiline_mode {
                    return;
                }
                self.dedent_all();
                return;
            }
            self.skip_carriage_return();
            if self.peek(0) == '\n' {
                self.advance();
                self.newline(false);
                continue;
            }
            let ghost ws_start = *self;
            let (indent_count, mixed) = self.count_indentation(current_indent_char);
            proof {
                let n = leading_indent(old(self).chars@);
                if 0 < n < old(self).chars@.len() && starts_content(old(self).chars@[n as int]) {
                    let m = self.offset - old(self).offset;
                    let a = old(self).offset as int;
                    assert(ws_start == *old(self));
                    assert forall|i: int| 0 <= i < m implies #[trigger] is_indent_space(old(self).chars@[i]) by {
                        assert(old(self).chars@[i] == self.source@[a + i]);
                    }
                    if m < old(self).chars@.len() {
                        assert(old(self).chars@[m] == self.source@[a + m]);
                    }
                    lemma_leading_indent(old(self).chars@, m);
                    assert(self.source@.subrange(a, self.offset as int) =~= old(self).chars@.take(m));
                    assert(self.chars@[0] == old(self).chars@[m]);
                }
            }
            let ghost content_line = ({
                let n = leading_indent(old(self).chars@);
                0 < n < old(self).chars@.len() && starts_content(old(self).chars@[n as int])
            });
            let ghost after_count = *self;
            proof {
                if content_line {
                    let n = leading_indent(old(self).chars@);
                    assert(self.offset == old(self).offset + n);
                    assert(self.indent_stack == old(self).indent_stack);
                    assert(self.pending_indents == old(self).pending_indents);
                    assert(indent_count == indent_width(old(self).chars@.take(n as int)));
                    assert(self.chars@.len() > 0 && starts_content(self.chars@[0]));
                }
            }
            if !self.version.allow_mixed_indentation_on_blank_lines {
                self.check_mixed_indentation(mixed);
            }
            if self.is_at_end() {
                self.dedent_all();
                return;
            }
            self.skip_carriage_return();
            proof {
                if content_line {
                    assert(self.chars == after_count.chars);
                    assert(self.offset == after_count.offset);
                    assert(self.indent_stack == after_count.indent_stack);
                    assert(self.pending_indents == after_count.pending_indents);
                }
            }
            if self.peek(0) == '\n' {
                self.advance();
                self.newline(false);
                continue;
            }
            if self.peek(0) == '#' {
                if self.skip_comment_line() {
                    self.dedent_all();
                    return;
                }
                continue;
            }
            if self.version.allow_mixed_indentation_on_blank_lines {
                self.check_mixed_indentation(mixed);
            }
            if self.line_continuation || self.multiline_mode {
                return;
            }
            proof {
                assert(indent_count > 0 ==> ws_start.pushes@ < self.consumed());
            }
            let ghost before_apply = *self;
            self.apply_indent(current_indent_char, indent_count);
            proof {
                if content_line {
                    assert(before_apply.indent_stack == old(self).indent_stack);
                    assert(before_apply.pending_indents == old(self).pending_indents);
                    assert(self.offset == before_apply.offset);
                }
            }
            break;
        }
    }

    /// Skips spaces, tabs, comments and line breaks before the next token, handling indentation
    /// at the start of a line. Does nothing while indent or dedent tokens are pending.
    fn skip_whitespace(&mut self)
        requires
            old(self).wf(),
        ensures
            final(self).steps_from(&*old(self)),
            old(self).chars@.len() == 0 && old(self).pending_indents == 0 && old(self).position.column == 1
                ==> *final(self) == (TokenizerText {
                    pending_indents: final(self).pending_indents,
                    indent_stack: final(self).indent_stack,
                    ..*old(self)
                }) && final(self).pending_indents == old(self).pending_indents - old(self).indent_stack@.len()
                && final(self).indent_stack@.len() == 0,
            old(self).chars@.len() == 0 && old(self).pending_indents == 0 && old(self).position.column != 1
                ==> *final(self) == *old(self),
            old(self).pending_indents != 0 ==> *final(self) == *old(self),
            old(self).pending_indents == 0 && old(self).chars@.len() > 0 && starts_content(old(self).chars@[0])
                && (old(self).position.column != 1 || old(self).indent_stack@.len() == 0
                || old(self).line_continuation || old(self).multiline_mode) ==> *final(self) == (TokenizerText {
                indent_stack: final(self).indent_stack,
                ..*old(self)
            }) && final(self).indent_stack@ == old(self).indent_stack@,
    {
        if self.pending_indents != 0 {
            return;
        }
        let is_bol = self.position.column == 1;
        if is_bol {
            self.check_indent();
            return;
        }
        loop
            invariant_except_break
                self.steps_from(&*old(self)),
                old(self).chars@.len() == 0 ==> *self == *old(self),
                is_bol == (old(self).position.column == 1),
                !is_bol,
                old(self).pending_indents == 0,
                old(self).chars@.len() > 0 && starts_content(old(self).chars@[0]) ==> *self == *old(self),
            ensures
                self.steps_from(&*old(self)),
                old(self).chars@.len() == 0 ==> *self == *old(self),
                old(self).chars@.len() > 0 && starts_content(old(self).chars@[0]) ==> *self == *old(self),
            decreases self.chars@.len(),
        {
            let ch = self.peek(0);
            if ch == ' ' {
                self.advance();
            } else if ch == '\t' {
                self.advance();
                self.position.column = self.position.column + (TAB_SIZE - 1);
            } else if ch == '\r' {
                self.advance();
                if self.peek(0) != '\n' {
                    self.push_error("Stray carriage return character in source code.");
                    return;
                }
            } else if ch == '\n' {
                self.advance();
                self.newline(!is_bol);
                self.check_indent();
            } else if ch == '#' {
                let ghost line_start = self.chars@.len();
                while self.peek(0) != '\n' && !self.is_at_end()
                    invariant
                        self.steps_from(&*old(self)),
                        self.chars@.len() <= line_start,
                    decreases self.chars@.len(),
                {
                    self.advance();
                }
                if self.is_at_end() {
                    return;
                }
                self.advance();
                self.newline(!is_bol);
                self.check_indent();
            } else {
                return;
            }
        }
    }

    /// Whether all characters have been consumed.
    fn is_at_end(&self) -> (r: bool)
        requires
            self.wf_core(),
        ensures
            r == (self.chars@.len() == 0),
    {
        self.offset >= self.source.len()
    }
}

impl<'v> Sealed for TokenizerText<'v> {}

impl<'v> Tokenizer for TokenizerText<'v> {
    open spec fn well_formed(&self) -> bool {
        self.wf()
    }

    fn version(&self) -> (r: &GDScriptBuild)
        ensures
            *r == self.build(),
    {
        self.version
    }

    fn set_multiline_mode(&mut self, multiline: bool)
        ensures
            final(self).multiline() == multiline,
            final(self).src() == old(self).src(),
            final(self).rest() == old(self).rest(),
            final(self).pos() == old(self).pos(),
            final(self).errors() == old(self).errors(),
            final(self).finished() == old(self).finished(),
    {
        self.multiline_mode = multiline;
    }

    fn next_token(&mut self) -> (r: Option<Spanned<Token>>)
        ensures
            final(self).src() == old(self).src(),
            final(self).multiline() == old(self).multiline(),
            final(self).consumed() >= old(self).consumed(),
            old(self).finished() ==> final(self).finished(),
            old(self).errors().len() > 0 ==> r == Some(old(self).errors().last())
                && final(self).errors() == old(self).errors().drop_last()
                && final(self).rest() == old(self).rest() && final(self).pos() == old(self).pos(),
            !old(self).finished() ==> r is Some,
            r is None <==> old(self).exhausted(),
            r is None ==> final(self).exhausted(),
            r matches Some(t) && t.0 is Eof ==> !old(self).finished() && final(self).finished()
                && (final(self).errors_returned() == 0 ==> final(self).exhausted()),
            final(self).indents_returned() == old(self).indents_returned()
                + (if r matches Some(t) && t.0 is Indent { 1int } else { 0int }),
            final(self).dedents_returned() == old(self).dedents_returned()
                + (if r matches Some(t) && t.0 is Dedent { 1int } else { 0int }),
            final(self).errors_returned() == old(self).errors_returned()
                + (if r matches Some(t) && t.0 is Error { 1int } else { 0int }),
            r matches Some(t) ==> (t.0 matches Token::Identifier(w) ==> w@ == final(self).token_text()),
            r matches Some(t) ==> (is_keyword_token(t.0) ==> is_word_token(t.0, final(self).token_text(),
                old(self).build().has_when)),
            r matches Some(t) ==> (operator_text(t.0) matches Some(x) ==> final(self).token_text() == x),
            r matches Some(t) ==> (t.0 matches Token::Annotation(a) ==> a@ == final(self).token_text()),
            r matches Some(t) ==> (t.0 matches Token::Literal(v) ==> (v is Int || v is Float ==>
                is_number_value(v, without_underscores(final(self).token_text())))),
            r matches Some(t) ==> (t.0 matches Token::Literal(v) ==> (v is String || v is StringName || v is NodePath
                ==> is_string_value(v, final(self).token_text(), old(self).build().has_raw_strings))),
            old(self).errors().len() == 0 && !old(self).multiline() ==> (old(self).pending_newline()
                matches Some((c, sp)) ==> r == Some((Token::Newline { continuation: c }, sp))),
            old(self).errors().len() == 0 && !old(self).multiline() && old(self).pending_newline() is Some
                && old(self).rest().len() == 0 && old(self).open_levels() == 0 && !old(self).finished()
                ==> final(self).pending_newline() is None && final(self).rest().len() == 0
                && final(self).errors().len() == 0 && final(self).pending_layout() == old(self).pending_layout()
                && final(self).open_levels() == 0 && !final(self).finished(),
            old(self).errors().len() == 0 && (old(self).pending_newline() is None || old(self).multiline())
                && old(self).pending_layout() > 0 ==> (r matches Some(t) && t.0 is Indent),
            old(self).errors().len() == 0 && (old(self).pending_newline() is None || old(self).multiline())
                && old(self).pending_layout() < 0 ==> (r matches Some(t) && t.0 is Dedent),
            old(self).errors().len() == 0 && old(self).pending_newline() is None && old(self).pending_layout() == 0
                && old(self).rest().len() == 0 && !old(self).finished() && old(self).open_levels() == 0
                ==> (r matches Some(t) && t.0 is Eof),
            old(self).at_token() ==> ({
                let rest = old(self).rest();
                let k = token_start(rest[0], char_or_nul(rest, 1), char_or_nul(rest, 2), old(self).build(),
                    old(self).after_operand());
                &&& r matches Some(t) && reads_as(t.0, k, final(self).token_text(), rest[0], old(self).build(),
                    old(self).paren_top())
                &&& final(self).token_begin() == old(self).consumed()
                &&& final(self).token_text().len() >= 1
                &&& final(self).token_text() == rest.take(final(self).token_text().len() as int)
                &&& k is Word ==> final(self).token_text().len() == 1 + xid_run(rest.drop_first())
                &&& k is Word && final(self).token_text().len() == rest.len() ==> final(self).rest().len() == 0
                    && final(self).pending_newline() is Some && final(self).errors().len() == 0
                    && final(self).open_levels() == 0 && final(self).pending_layout() == -(old(self).open_levels() as int)
                    && !final(self).finished()
                &&& k is Text ==> match string_literal(old(self).src(), old(self).consumed() as int) {
                    None => r matches Some(t) && t.0 is Error,
                    Some((v, e)) => final(self).token_begin() + final(self).token_text().len() == e
                        && (r matches Some(t) && string_token_is(t.0, rest[0], v)),
                }
                &&& k is Number ==> final(self).token_begin() + final(self).token_text().len()
                    == number_end(old(self).src(), old(self).consumed() as int, old(self).build())
                &&& k is Number ==> (r matches Some(t) && (t.0 is Error <==> number_rejected(
                    without_underscores(final(self).token_text()), old(self).build().need_digits_in_hex_and_binary)))
            }),
    {
        self.next()
    }
}

/// Once a tokenizer has returned all its tokens, it has returned a dedent token for each indent
/// token, and one more for each line unindented to a level that was never opened, save for the
/// levels still open.
pub proof fn law_indent_balance(t: TokenizerText)
    requires
        t.wf(),
        t.exhausted(),
    ensures
        t.dedents_returned() + t.open_levels() == t.indents_returned() + t.unindent_mismatches(),
{
}

/// Once a tokenizer has returned all its tokens without returning an error, every indentation
/// level is closed and it has returned exactly as many dedent tokens as indent tokens.
pub proof fn law_indents_balance_without_errors(t: TokenizerText)
    requires
        t.wf(),
        t.exhausted(),
        t.errors_returned() == 0,
    ensures
        t.open_levels() == 0,
        t.dedents_returned() == t.indents_returned(),
{
}


/// At every point, the dedent tokens returned so far number at most the indent tokens returned
/// plus the lines unindented to a level never opened, each of which is reported by an error token
/// (returned, or still waiting to be).
pub proof fn law_dedents_never_outrun_indents(t: TokenizerText)
    requires
        t.wf(),
    ensures
        t.dedents_returned() <= t.indents_returned() + t.unindent_mismatches(),
        t.unindent_mismatches() <= t.errors_returned() + t.errors().len(),
{
}


/// A token ends an operand (so that a following sign is an operator, not part of a number) exactly
/// when it is one that may precede a binary operator: an identifier, a literal, `self`, a closing
/// bracket or a named constant. Of the operator and punctuation tokens, only the closing brackets
/// do. So, where signed literals are read, `-` or `+` before a digit is a number after an opening
/// bracket or an operator, and the operator after a closing bracket or an operand.
pub proof fn law_sign_after_token(tok: Token, d: char, n: char, b: GDScriptBuild)
    requires
        b.has_literal_sign_handling,
        is_ascii_digit(d),
    ensures
        ends_operand(spec_token_type(tok)) == spec_can_precede_bin_op(tok),
        operator_text(tok) is Some ==> (ends_operand(spec_token_type(tok)) <==> (tok is ParenthesisClose
            || tok is BracketClose || tok is BraceClose)),
        token_start('-', d, n, b, ends_operand(spec_token_type(tok))) == if spec_can_precede_bin_op(tok) {
            TokenStart::Fixed(Token::Minus)
        } else {
            TokenStart::Number
        },
        token_start('+', d, n, b, ends_operand(spec_token_type(tok))) == if spec_can_precede_bin_op(tok) {
            TokenStart::Fixed(Token::Plus)
        } else {
            TokenStart::Number
        },
{
}

} // verus!
