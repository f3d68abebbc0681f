use query_engine::lexer::{LexingError, TokenInfo};

#[test]
fn test_token_info_new_computes_col_and_len() {
    let info = TokenInfo::new(2, 10, 14, 19);
    assert_eq!(info.line, 2);
    assert_eq!(info.line_offset, 10);
    assert_eq!(info.col, 4);
    assert_eq!(info.start, 14);
    assert_eq!(info.end, 19);
    assert_eq!(info.len, 5);
}

#[test]
fn test_token_info_default_is_zeroed() {
    let info = TokenInfo::default();
    assert_eq!(info, TokenInfo::new(0, 0, 0, 0));
}

#[test]
fn test_advance_line_steps_line_and_offset() {
    let mut info = TokenInfo::default();
    info.advance_line(12);
    assert_eq!(info.line, 1);
    assert_eq!(info.line_offset, 12);
    info.advance_line(30);
    assert_eq!(info.line, 2);
    assert_eq!(info.line_offset, 30);
}

#[test]
fn test_lexing_error_default_is_other() {
    assert_eq!(LexingError::default(), LexingError::Other);
    assert_ne!(LexingError::default(), LexingError::NumberParseError);
}
