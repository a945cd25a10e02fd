use gdpatch::engine_build::GDScriptBuild;
use gdpatch::gdscript::tokenizer::bytecode::{binary_to_token, read_token_lines};
use gdpatch::gdscript::tokenizer::{Tokenizer, TokenizerBytecode};
use gdpatch::gdscript::{Position, Span, Spanned, Token, TokenType};
use gdpatch::variant::Variant;
use gdpatch::{Error, ReadableMarshalBuffer};
use std::collections::HashMap;

fn build() -> GDScriptBuild {
    GDScriptBuild {
        tokenizer_version: Some(101),
        tokens: vec![TokenType::Empty],
        allow_mixed_indentation_when_multiline: true,
        has_improved_invalid_character_error: true,
        has_literal_sign_handling: true,
        has_new_number_underscore_parsing: true,
        has_raw_strings: true,
        has_when: true,
        need_digits_in_hex_and_binary: true,
        has_fixed_continuation_lines: true,
        has_uppercase_number_types: true,
        has_variadic_functions: true,
        expands_tabs_in_span_column: true,
        allow_zwsp_as_whitespace: false,
        allow_mixed_indentation_on_blank_lines: true,
        has_extra_word_in_binary_script_header: false,
        has_fixed_multiline_handling_in_super_calls: true,
        has_early_bail_in_super_calls: true,
        allow_multiline_array_dictionary_patterns: true,
        allow_preload_trailing_comma: true,
        has_static_variables: true,
        has_is_not: true,
        allow_empty_parentheses_in_getter_declaration: true,
        has_match_error_recovery: true,
        has_dictionary_error_recovery: true,
        has_typed_for_loops: true,
        allow_keywords_as_attributes: true,
        has_72979_annotation_parsing: true,
        has_77744_suite_changes: true,
    }
}

fn kinds() -> Vec<TokenType> {
    vec![TokenType::Identifier, TokenType::Literal, TokenType::Plus, TokenType::Newline]
}

fn decode(bytes: &[u8]) -> Result<Spanned<Token>, Error> {
    let identifiers = vec!["first".to_string(), "second".to_string()];
    let constants = vec![Variant::Int(7)];
    let mut buf = ReadableMarshalBuffer::new(bytes, false);
    binary_to_token(&identifiers, &constants, &kinds(), &mut buf)
}

#[test]
fn one_byte_token() {
    let (token, span) = decode(&[2, 5, 0, 0, 0]).unwrap();
    assert!(matches!(token, Token::Plus));
    assert_eq!(span.start.line, 5);
    assert_eq!(span.start.column, 0);
    assert_eq!(span.end.line, 5);
}

#[test]
fn four_byte_identifier_token() {
    let (token, span) = decode(&[0x80, 0x01, 0, 0, 3, 0, 0, 0]).unwrap();
    assert!(matches!(&token, Token::Identifier(s) if s == "second"));
    assert_eq!(span.start.line, 3);
}

#[test]
fn literal_token_takes_a_constant() {
    let (token, _) = decode(&[0x81, 0x00, 0, 0, 1, 0, 0, 0]).unwrap();
    assert!(matches!(token, Token::Literal(Variant::Int(7))));
}

#[test]
fn identifier_index_out_of_bounds() {
    let (token, span) = decode(&[0x80, 0x05, 0, 0, 3, 0, 0, 0]).unwrap();
    assert!(matches!(&token, Token::Error(Variant::String(s)) if s == "Identifier index out of bounds."));
    assert_eq!(span.start.line, 0);
}

#[test]
fn constant_index_out_of_bounds() {
    let (token, _) = decode(&[0x81, 0x02, 0, 0, 3, 0, 0, 0]).unwrap();
    assert!(matches!(&token, Token::Error(Variant::String(s)) if s == "Constant index out of bounds."));
}

#[test]
fn bad_tokens() {
    assert!(matches!(decode(&[3, 0, 0, 0, 0]), Err(Error::BadData)));
    assert!(matches!(decode(&[9, 0, 0, 0, 0]), Err(Error::BadData)));
    assert!(matches!(decode(&[]), Err(Error::TooShort)));
    assert!(matches!(decode(&[0x80, 1]), Err(Error::TooShort)));
    assert!(matches!(decode(&[2, 1, 0]), Err(Error::TooShort)));
}

#[test]
fn token_lines_map() {
    let bytes = [0u8, 0, 0, 0, 10, 0, 0, 0, 2, 0, 0, 0, 20, 0, 0, 0];
    let mut buf = ReadableMarshalBuffer::new(&bytes, false);
    let m = read_token_lines(2, &mut buf).unwrap();
    assert_eq!(m.get(&0), Some(&10));
    assert_eq!(m.get(&2), Some(&20));
    assert_eq!(buf.remaining(), 0);
    let mut buf = ReadableMarshalBuffer::new(&bytes, false);
    assert!(matches!(read_token_lines(3, &mut buf), Err(Error::TooShort)));
}

fn at(line: usize) -> Span {
    let p = Position { line, column: 0 };
    Span::new(p, p)
}

#[test]
fn synthesized_line_structure() {
    let b = build();
    let mut lines = HashMap::new();
    let mut columns = HashMap::new();
    lines.insert(0, 1);
    columns.insert(0, 1);
    lines.insert(2, 2);
    columns.insert(2, 2);
    let tokens = vec![
        (Token::Func, at(1)),
        (Token::Identifier("f".to_string()), at(1)),
        (Token::Pass, at(2)),
    ];
    let mut t = TokenizerBytecode::from_parts(&b, lines, columns, tokens);
    let mut out = Vec::new();
    while let Some(tok) = t.next() {
        out.push(tok.0.typ());
    }
    assert_eq!(out, vec![TokenType::Newline, TokenType::Func, TokenType::Identifier, TokenType::Newline, TokenType::Indent, TokenType::Pass, TokenType::Newline, TokenType::Dedent, TokenType::Eof]);
    assert!(t.next().is_none());
}

#[test]
fn multiline_mode_keeps_stored_tokens_only() {
    let b = build();
    let mut lines = HashMap::new();
    let mut columns = HashMap::new();
    lines.insert(1, 2);
    columns.insert(1, 5);
    let tokens = vec![(Token::BracketOpen, at(1)), (Token::BracketClose, at(2))];
    let mut t = TokenizerBytecode::from_parts(&b, lines, columns, tokens);
    t.set_multiline_mode(true);
    let mut out = Vec::new();
    while let Some(tok) = t.next_token() {
        out.push(tok.0.typ());
    }
    assert_eq!(out, vec![TokenType::BracketOpen, TokenType::BracketClose, TokenType::Newline, TokenType::Eof]);
}

#[test]
fn stored_tokens_come_back_in_order() {
    let b = build();
    let mut lines = HashMap::new();
    let mut columns = HashMap::new();
    for (i, col) in [(0usize, 1usize), (2, 5), (4, 9), (5, 1)] {
        lines.insert(i, i + 1);
        columns.insert(i, col);
    }
    let tokens = vec![
        (Token::If, at(1)),
        (Token::Identifier("x".to_string()), at(1)),
        (Token::Pass, at(3)),
        (Token::Colon, at(3)),
        (Token::Return, at(5)),
        (Token::Identifier("y".to_string()), at(6)),
    ];
    let stored: Vec<Token> = tokens.iter().map(|t| t.0.clone()).collect();
    let mut t = TokenizerBytecode::from_parts(&b, lines, columns, tokens);
    let mut non_layout = Vec::new();
    let mut last = None;
    while let Some(tok) = t.next() {
        match tok.0 {
            Token::Newline { .. } | Token::Indent | Token::Dedent => {},
            other => {
                if let Some(prev) = last.take() {
                    non_layout.push(prev);
                }
                last = Some(other);
            },
        }
    }
    assert_eq!(last, Some(Token::Eof));
    assert_eq!(non_layout, stored);
}

#[test]
fn bytecode_indents_and_dedents_balance() {
    let b = build();
    let mut lines = HashMap::new();
    let mut columns = HashMap::new();
    for (i, col) in [(0usize, 1usize), (2, 5), (3, 9), (4, 5), (5, 13)] {
        lines.insert(i, i + 1);
        columns.insert(i, col);
    }
    let tokens = vec![
        (Token::If, at(1)),
        (Token::Colon, at(1)),
        (Token::Pass, at(3)),
        (Token::Pass, at(4)),
        (Token::Pass, at(5)),
        (Token::Pass, at(6)),
    ];
    let mut t = TokenizerBytecode::from_parts(&b, lines, columns, tokens);
    let (mut indents, mut dedents) = (0, 0);
    while let Some(tok) = t.next() {
        match tok.0 {
            Token::Indent => indents += 1,
            Token::Dedent => dedents += 1,
            _ => {},
        }
    }
    assert_eq!(indents, 3);
    assert_eq!(dedents, 3);
}
