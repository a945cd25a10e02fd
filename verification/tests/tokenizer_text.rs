use gdpatch::gdscript::tokenizer::reconstitute_text::reconstruct_script_text;
use gdpatch::gdscript::{Position, Span};
use gdpatch::engine_build::GDScriptBuild;
use gdpatch::gdscript::tokenizer::{Tokenizer, TokenizerText};
use gdpatch::gdscript::{Spanned, Token, TokenType};
use gdpatch::variant::Variant;

fn build() -> GDScriptBuild {
    GDScriptBuild {
        tokenizer_version: Some(101),
        tokens: vec![TokenType::Empty],
        allow_mixed_indentation_when_multiline: true,
        has_improved_invalid_character_error: true,
        has_literal_sign_handling: true,
        has_new_number_underscore_parsing: true,
        has_raw_strings: true,
        has_when: true,
        need_digits_in_hex_and_binary: true,
        has_fixed_continuation_lines: true,
        has_uppercase_number_types: true,
        has_variadic_functions: true,
        expands_tabs_in_span_column: true,
        allow_zwsp_as_whitespace: false,
        allow_mixed_indentation_on_blank_lines: true,
        has_extra_word_in_binary_script_header: false,
        has_fixed_multiline_handling_in_super_calls: true,
        has_early_bail_in_super_calls: true,
        allow_multiline_array_dictionary_patterns: true,
        allow_preload_trailing_comma: true,
        has_static_variables: true,
        has_is_not: true,
        allow_empty_parentheses_in_getter_declaration: true,
        has_match_error_recovery: true,
        has_dictionary_error_recovery: true,
        has_typed_for_loops: true,
        allow_keywords_as_attributes: true,
        has_72979_annotation_parsing: true,
        has_77744_suite_changes: true,
    }
}

fn tokenize(src: &str) -> Vec<Spanned<Token>> {
    let b = build();
    let mut t = TokenizerText::new(&b, src);
    let mut out = Vec::new();
    while let Some(tok) = t.next() {
        out.push(tok);
    }
    out
}

fn kinds(tokens: &[Spanned<Token>]) -> Vec<TokenType> {
    tokens.iter().map(|t| t.0.typ()).collect()
}

fn error_text(t: &Token) -> String {
    match t {
        Token::Error(Variant::String(s)) => s.clone(),
        other => panic!("not an error: {:?}", other),
    }
}

#[test]
fn test_newline_jank() {
    let src = "
func meow() -> void:
    cat
        ";
    let tokens = tokenize(src);
    assert_eq!(tokens.len(), 13);
}

#[test]
fn newline_jank_token_kinds() {
    let src = "\nfunc meow() -> void:\n    cat\n        ";
    let tokens = tokenize(src);
    assert_eq!(
        kinds(&tokens),
        vec![TokenType::Func, TokenType::Identifier, TokenType::ParenthesisOpen, TokenType::ParenthesisClose, TokenType::ForwardArrow, TokenType::Void, TokenType::Colon, TokenType::Newline, TokenType::Indent,
            TokenType::Identifier, TokenType::Newline, TokenType::Dedent, TokenType::Eof]
    );
    assert_eq!(tokens[0].1.start.line, 2);
    assert_eq!(tokens[0].1.start.column, 1);
    assert_eq!(tokens[0].1.end.column, 5);
}

#[test]
fn hex_literal_and_final_newline() {
    let tokens = tokenize("var x = 0x1F\n");
    assert_eq!(kinds(&tokens), vec![TokenType::Var, TokenType::Identifier, TokenType::Equal, TokenType::Literal, TokenType::Newline, TokenType::Eof]);
    assert!(matches!(&tokens[1].0, Token::Identifier(s) if s == "x"));
    assert!(matches!(tokens[3].0, Token::Literal(Variant::Int(31))));
}

#[test]
fn keywords_and_constants() {
    let tokens = tokenize("if true and not null: pass");
    assert_eq!(kinds(&tokens), vec![TokenType::If, TokenType::Literal, TokenType::And, TokenType::Not, TokenType::Literal, TokenType::Colon, TokenType::Pass, TokenType::Newline, TokenType::Eof]);
    assert!(matches!(tokens[1].0, Token::Literal(Variant::Bool(true))));
    assert!(matches!(tokens[4].0, Token::Literal(Variant::Nil)));
}

#[test]
fn lone_underscore_and_when() {
    let tokens = tokenize("_ when PI");
    assert_eq!(kinds(&tokens), vec![TokenType::Underscore, TokenType::When, TokenType::ConstPi, TokenType::Newline, TokenType::Eof]);
}

#[test]
fn end_of_file_then_nothing() {
    let b = build();
    let mut t = TokenizerText::new(&b, "a");
    assert!(matches!(t.next().unwrap().0, Token::Identifier(_)));
    assert!(matches!(t.next().unwrap().0, Token::Newline { continuation: false }));
    assert!(matches!(t.next().unwrap().0, Token::Eof));
    assert!(t.next().is_none());
    assert!(t.next().is_none());
}

#[test]
fn empty_source_gives_only_eof() {
    let tokens = tokenize("");
    assert_eq!(kinds(&tokens), vec![TokenType::Eof]);
}

#[test]
fn string_escapes() {
    let tokens = tokenize("\"a\\tb\\u0041\"");
    assert!(matches!(&tokens[0].0, Token::Literal(Variant::String(s)) if s == "a\tbA"));
}

#[test]
fn raw_name_and_node_path_strings() {
    let tokens = tokenize("r\"a\\n\" &\"n\" ^\"a/b\"");
    assert!(matches!(&tokens[0].0, Token::Literal(Variant::String(s)) if s == "a\\n"));
    assert!(matches!(&tokens[1].0, Token::Literal(Variant::StringName(s)) if s == "n"));
    assert!(matches!(&tokens[2].0, Token::Literal(Variant::NodePath(s)) if s == "a/b"));
}

#[test]
fn multiline_string() {
    let tokens = tokenize("\"\"\"a\nb\"\"\"");
    assert!(matches!(&tokens[0].0, Token::Literal(Variant::String(s)) if s == "a\nb"));
}

#[test]
fn unterminated_string() {
    let tokens = tokenize("\"abc");
    assert_eq!(error_text(&tokens[0].0), "Unterminated string.");
}

#[test]
fn invalid_escape_reported_after_the_literal() {
    let tokens = tokenize("\"a\\qb\"");
    assert!(matches!(&tokens[0].0, Token::Literal(Variant::String(s)) if s == "ab"));
    assert_eq!(error_text(&tokens[1].0), "Invalid escape in string.");
}

#[test]
fn numbers() {
    let tokens = tokenize("1.5e3 0b101 1_000");
    assert!(matches!(&tokens[0].0, Token::Literal(Variant::Float(s)) if s == "1.5e3"));
    assert!(matches!(tokens[1].0, Token::Literal(Variant::Int(5))));
    assert!(matches!(tokens[2].0, Token::Literal(Variant::Int(1000))));
}

#[test]
fn adjacent_underscores_in_number() {
    let tokens = tokenize("1__2");
    assert!(matches!(tokens[0].0, Token::Literal(Variant::Int(12))));
    assert_eq!(error_text(&tokens[1].0), "Multiple underscores cannot be adjacent in a numeric literal.");
}

#[test]
fn hex_prefix_without_digits() {
    let tokens = tokenize("0x");
    assert_eq!(error_text(&tokens[0].0), "Expected hexadecimal digit after \"0x\".");
}

#[test]
fn signed_number_literal_only_where_no_operand_precedes() {
    let tokens = tokenize("-5");
    assert!(matches!(tokens[0].0, Token::Literal(Variant::Int(-5))));
    let tokens = tokenize("x -5");
    assert_eq!(kinds(&tokens), vec![TokenType::Identifier, TokenType::Minus, TokenType::Literal, TokenType::Newline, TokenType::Eof]);
}

#[test]
fn operators() {
    let tokens = tokenize("a **= b ... c != d -> e <<= f");
    assert_eq!(
        kinds(&tokens),
        vec![TokenType::Identifier, TokenType::StarStarEqual, TokenType::Identifier, TokenType::PeriodPeriodPeriod, TokenType::Identifier, TokenType::BangEqual, TokenType::Identifier,
            TokenType::ForwardArrow, TokenType::Identifier, TokenType::LessLessEqual, TokenType::Identifier, TokenType::Newline, TokenType::Eof]
    );
}

#[test]
fn conflict_marker() {
    let tokens = tokenize("=======");
    assert!(matches!(tokens[0].0, Token::VcsConflictMarker));
    let tokens = tokenize("==");
    assert!(matches!(tokens[0].0, Token::EqualEqual));
}

#[test]
fn unbalanced_brackets() {
    let tokens = tokenize("(]");
    assert!(matches!(tokens[0].0, Token::ParenthesisOpen));
    assert_eq!(error_text(&tokens[1].0), "Closing \"]\" doesn't have an opening counterpart.");
    let tokens = tokenize("([)");
    assert_eq!(error_text(&tokens[2].0), "Closing \")\" doesn't match the opening \"(\".");
}

#[test]
fn invalid_characters() {
    let tokens = tokenize("\u{a7}");
    assert_eq!(error_text(&tokens[0].0), "Invalid character \"\u{a7}\" (U+00A7).");
    let tokens = tokenize("a\u{3000}");
    assert_eq!(error_text(&tokens[1].0), "Invalid white space character U+3000.");
}

#[test]
fn annotation_includes_at_sign() {
    let tokens = tokenize("@export var");
    assert!(matches!(&tokens[0].0, Token::Annotation(s) if s == "@export"));
    let tokens = tokenize("@ x");
    assert_eq!(error_text(&tokens[1].0), "Expected annotation identifier after \"@\".");
}

#[test]
fn line_continuation() {
    let tokens = tokenize("a \\\nb");
    assert_eq!(kinds(&tokens), vec![TokenType::Identifier, TokenType::Identifier, TokenType::Newline, TokenType::Eof]);
}

#[test]
fn comments_and_blank_lines_skip_to_the_next_line() {
    let tokens = tokenize("a # note\n\n  # indented note\nb");
    assert_eq!(kinds(&tokens), vec![TokenType::Identifier, TokenType::Newline, TokenType::Identifier, TokenType::Newline, TokenType::Eof]);
}

#[test]
fn multiline_mode_hides_line_structure() {
    let b = build();
    let mut t = TokenizerText::new(&b, "a\n    b");
    t.set_multiline_mode(true);
    let mut out = Vec::new();
    while let Some(tok) = t.next() {
        out.push(tok);
    }
    assert_eq!(kinds(&out), vec![TokenType::Identifier, TokenType::Identifier, TokenType::Eof]);
}

#[test]
fn unindent_mismatch() {
    let tokens = tokenize("a\n    b\n  c");
    assert_eq!(kinds(&tokens)[..5], [TokenType::Identifier, TokenType::Newline, TokenType::Indent, TokenType::Identifier, TokenType::Newline]);
    assert!(tokens.iter().any(|t| matches!(&t.0, Token::Error(Variant::String(s))
        if s == "Unindent doesn't match the previous indentation level.")));
}

#[test]
fn mixed_indentation_characters() {
    let tokens = tokenize("a\n\tb\n    c");
    assert!(tokens.iter().any(|t| matches!(&t.0, Token::Error(Variant::String(s))
        if s == "Used space character for indentation instead of tab as used before in the file.")));
}

#[test]
fn next_token_through_the_trait() {
    let b = build();
    let mut t = TokenizerText::new(&b, "x");
    assert!(t.version().has_when);
    assert!(matches!(t.next_token().unwrap().0, Token::Identifier(_)));
}

#[test]
fn reconstructed_string_literals_read_back() {
    let p = gdpatch::gdscript::Position { line: 1, column: 1 };
    let sp = gdpatch::gdscript::Span::new(p, p);
    let value = "q\"s'b\\n\nr\rt\ta\x07e\x08f\x0cv\x0bé🙂".to_string();
    for literal in [
        Variant::String(value.clone()),
        Variant::StringName(value.clone()),
        Variant::NodePath(value.clone()),
    ] {
        let tokens = vec![(Token::Literal(literal.clone()), sp)];
        let text = gdpatch::gdscript::tokenizer::reconstitute_text::reconstruct_script_text(&tokens);
        let read = tokenize(&text);
        assert_eq!(read[0].0, Token::Literal(literal));
    }
}

#[test]
fn indents_and_dedents_balance() {
    let count = |tokens: &[Spanned<Token>], t: TokenType| tokens.iter().filter(|x| x.0.typ() == t).count();
    let balanced = tokenize("if a:\n\tif b:\n\t\tpass\n\tpass\npass\n");
    assert_eq!(count(&balanced, TokenType::Indent), 2);
    assert_eq!(count(&balanced, TokenType::Dedent), 2);
    let unclosed = tokenize("if a:\n\tif b:\n\t\tpass");
    assert_eq!(count(&unclosed, TokenType::Indent), 2);
    assert_eq!(count(&unclosed, TokenType::Dedent), 2);
    // unindenting to a level never opened: one more dedent, and an error
    let mismatched = tokenize("if a:\n\t\tb\n\tc\n");
    assert_eq!(count(&mismatched, TokenType::Indent), 1);
    assert_eq!(count(&mismatched, TokenType::Dedent), 2);
    assert!(mismatched.iter().any(|t| matches!(&t.0, Token::Error(Variant::String(m))
        if m == "Unindent doesn't match the previous indentation level.")));
}

#[test]
fn single_identifier_then_newline_and_eof() {
    let toks: Vec<Token> = tokenize("a").into_iter().map(|t| t.0).collect();
    assert_eq!(toks, vec![Token::Identifier("a".into()), Token::Newline { continuation: false }, Token::Eof]);
    let toks: Vec<Token> = tokenize("").into_iter().map(|t| t.0).collect();
    assert_eq!(toks, vec![Token::Eof]);
}

#[test]
fn string_literal_escapes_decoded() {
    let toks = tokenize("\"a\\tb\\n\"");
    assert_eq!(toks[0].0, Token::Literal(Variant::String("a\tb\n".into())));
}

#[test]
fn underscored_integer_literal() {
    let toks = tokenize("1_000");
    assert_eq!(toks[0].0, Token::Literal(Variant::Int(1000)));
}

#[test]
fn keyword_spellings_read_back() {
    let keywords = vec![
        Token::As, Token::And, Token::Assert, Token::Await, Token::Break, Token::Breakpoint, Token::Class,
        Token::ClassName, Token::Const, Token::Continue, Token::Elif, Token::Else, Token::Enum, Token::Extends,
        Token::For, Token::Func, Token::If, Token::In, Token::Is, Token::Match, Token::Namespace, Token::Not,
        Token::Or, Token::Pass, Token::Preload, Token::Return, Token::_Self, Token::Signal, Token::Static,
        Token::Super, Token::Trait, Token::Var, Token::Void, Token::While, Token::Yield, Token::ConstInf,
        Token::ConstNan, Token::ConstPi, Token::ConstTau, Token::When,
    ];
    for k in keywords {
        let toks = tokenize(k.get_identifier());
        assert_eq!(toks[0].0, k);
    }
}

#[test]
fn indents_match_dedents_on_nested_blocks() {
    let toks = tokenize("if a:\n\tif b:\n\t\tpass\n\tpass\npass\n");
    let kinds = kinds(&toks);
    let mut depth: i64 = 0;
    for k in &kinds {
        assert!(*k != TokenType::Error);
        if *k == TokenType::Indent {
            depth += 1;
        }
        if *k == TokenType::Dedent {
            depth -= 1;
        }
        assert!(depth >= 0);
    }
    assert_eq!(depth, 0);
    assert_eq!(kinds.iter().filter(|k| **k == TokenType::Eof).count(), 1);
    assert_eq!(*kinds.last().unwrap(), TokenType::Eof);
}

#[test]
fn written_back_keywords_read_back() {
    let p = Position { line: 1, column: 1 };
    for k in [Token::As, Token::And, Token::ClassName, Token::_Self, Token::ConstPi, Token::Not, Token::When, Token::Func] {
        let text = reconstruct_script_text(&[(k.clone(), Span::new(p, p))]);
        let toks = tokenize(&text);
        assert_eq!(toks[0].0, k);
    }
}

#[test]
fn fraction_and_exponent_belong_to_the_number() {
    let toks = tokenize("1.5e3 2");
    assert!(matches!(&toks[0].0, Token::Literal(Variant::Float(_))));
    assert_eq!(toks[1].0, Token::Literal(Variant::Int(2)));
}
