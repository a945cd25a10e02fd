use gdpatch::gdscript::tokenizer::reconstitute_text::reconstruct_script_text;
use gdpatch::gdscript::{Position, Span, Token};
use gdpatch::variant::Variant;

fn sp() -> Span {
    let p = Position { line: 1, column: 1 };
    Span::new(p, p)
}

#[test]
fn function_with_indented_body() {
    let tokens = vec![
        (Token::Func, sp()),
        (Token::Identifier("meow".to_string()), sp()),
        (Token::ParenthesisOpen, sp()),
        (Token::ParenthesisClose, sp()),
        (Token::ForwardArrow, sp()),
        (Token::Void, sp()),
        (Token::Colon, sp()),
        (Token::Newline { continuation: false }, sp()),
        (Token::Indent, sp()),
        (Token::Identifier("cat".to_string()), sp()),
        (Token::Newline { continuation: false }, sp()),
        (Token::Dedent, sp()),
        (Token::Eof, sp()),
    ];
    assert_eq!(reconstruct_script_text(&tokens), "func meow() -> void :\n\tcat\n");
}

#[test]
fn literals_are_written_back() {
    let tokens = vec![
        (Token::Identifier("x".to_string()), sp()),
        (Token::Equal, sp()),
        (Token::Literal(Variant::String("a\"b\n".to_string())), sp()),
    ];
    assert_eq!(reconstruct_script_text(&tokens), "x = \"a\\\"b\\n\"");
    let tokens = vec![
        (Token::Literal(Variant::Int(-42)), sp()),
        (Token::Comma, sp()),
        (Token::Literal(Variant::Nil), sp()),
        (Token::Comma, sp()),
        (Token::Literal(Variant::Bool(true)), sp()),
        (Token::Comma, sp()),
        (Token::Literal(Variant::StringName("n".to_string())), sp()),
        (Token::Comma, sp()),
        (Token::Literal(Variant::NodePath("a/b".to_string())), sp()),
        (Token::Comma, sp()),
        (Token::Literal(Variant::Float("2.5".to_string())), sp()),
        (Token::Comma, sp()),
        (Token::Literal(Variant::Int(i64::MIN)), sp()),
    ];
    assert_eq!(
        reconstruct_script_text(&tokens),
        "-42, null, true, &\"n\", ^\"a/b\", 2.5, -9223372036854775808"
    );
}

#[test]
fn percent_spacing_depends_on_previous_token() {
    let tokens = vec![
        (Token::Identifier("a".to_string()), sp()),
        (Token::Percent, sp()),
        (Token::Identifier("b".to_string()), sp()),
    ];
    assert_eq!(reconstruct_script_text(&tokens), "a % b");
}

#[test]
fn empty_input() {
    assert_eq!(reconstruct_script_text(&[]), "");
}

#[test]
fn written_integers_read_back() {
    for i in [0i64, 7, -42, 1_000_000, i64::MAX, i64::MIN + 1] {
        let tokens = vec![(Token::Literal(Variant::Int(i)), sp())];
        let text = reconstruct_script_text(&tokens);
        assert_eq!(gdpatch::string::to_int(&text), i);
        assert_eq!(gdpatch::string::to_int_checked(&text), Some(i));
    }
}
