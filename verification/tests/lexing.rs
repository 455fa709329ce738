use cascade_vm::number::get_number;
use cascade_vm::token::{tokenize, Token, TokenKind};

fn toks(src: &str) -> Vec<Token> {
    tokenize(&src.as_bytes().to_vec())
}

#[test]
fn hex_literal() {
    assert_eq!(get_number(b"#1a".to_vec()), 26);
}

#[test]
fn percent_suffix_not_reflected() {
    assert_eq!(get_number(b"42%".to_vec()), 42);
}

#[test]
fn hex_zero() {
    assert_eq!(get_number(b"#0".to_vec()), 0);
}

#[test]
fn plain_decimal() {
    assert_eq!(get_number(b"7".to_vec()), 7);
}

#[test]
fn hex_digits_cover_nine_and_f() {
    assert_eq!(get_number(b"#9".to_vec()), 9);
    assert_eq!(get_number(b"#ff".to_vec()), 255);
    assert_eq!(get_number(b"#10".to_vec()), 16);
}

#[test]
fn hex_unrecognized_bytes_contribute_zero() {
    // 'z' counts zero but still holds its place.
    assert_eq!(get_number(b"#z1".to_vec()), 1);
    assert_eq!(get_number(b"#1z".to_vec()), 16);
}

#[test]
fn tokenize_declaration_line() {
    let ts = toks("outline: solid 5;\n");
    assert_eq!(ts.len(), 4);
    assert_eq!(ts[0].kind, TokenKind::Keyword);
    assert_eq!(ts[0].text, "outline:");
    assert_eq!(ts[1].kind, TokenKind::Keyword);
    assert_eq!(ts[1].text, "solid");
    assert_eq!(ts[2].kind, TokenKind::Number);
    assert_eq!(ts[2].text, "5");
    assert_eq!(ts[2].value, 5);
    assert_eq!(ts[3].kind, TokenKind::Newline);
    assert_eq!(ts[3].text, "\n");
}

#[test]
fn tokenize_skips_empty_words() {
    let ts = toks("  ;;\t a  b\n");
    let texts: Vec<&str> = ts.iter().map(|t| t.text.as_str()).collect();
    assert_eq!(texts, vec!["a", "b", "\n"]);
}

#[test]
fn tokenize_newline_after_pending_word() {
    let ts = toks("a\n\n");
    let texts: Vec<&str> = ts.iter().map(|t| t.text.as_str()).collect();
    assert_eq!(texts, vec!["a", "\n", "\n"]);
}

#[test]
fn tokenize_drops_trailing_word_without_separator() {
    let ts = toks("abc");
    assert_eq!(ts.len(), 0);
}

#[test]
fn tokenize_classifies_numbers_by_first_byte() {
    let ts = toks("9lives #a x9 ;\n");
    assert_eq!(ts[0].kind, TokenKind::Number);
    assert_eq!(ts[1].kind, TokenKind::Number);
    assert_eq!(ts[1].value, 10);
    assert_eq!(ts[2].kind, TokenKind::Keyword);
    assert_eq!(ts[2].value, 0);
}
