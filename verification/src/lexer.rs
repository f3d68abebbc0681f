//! The plain-data half of tokenization. The tokenizer itself is
//! off-the-shelf parsing glue and lives outside this library; what it
//! needs from here are the token-location record, the arithmetic that
//! fills it from a byte span, and the lexing error type.
use vstd::prelude::*;

verus! {

/// Why lexing failed.
#[derive(Debug, PartialEq, Clone)]
pub enum LexingError {
    /// A numeric literal did not parse at its declared width.
    NumberParseError,
    /// Any other lexing failure.
    Other,
}

impl Default for LexingError {
    fn default() -> (r: Self)
        ensures
            r == LexingError::Other,
    {
        LexingError::Other
    }
}

/// Extra data about a token: where it stands in the input.
#[derive(Debug, PartialEq)]
pub struct TokenInfo {
    /// Line number of start.
    pub line: usize,
    /// Byte offset of the line's start.
    pub line_offset: usize,
    /// Column number of start.
    pub col: usize,
    /// Byte index of start.
    pub start: usize,
    /// Byte index of end.
    pub end: usize,
    /// Number of bytes in the token.
    pub len: usize,
}

impl Default for TokenInfo {
    fn default() -> (r: Self)
        ensures
            r == (TokenInfo { line: 0, line_offset: 0, col: 0, start: 0, end: 0, len: 0 }),
    {
        TokenInfo { line: 0, line_offset: 0, col: 0, start: 0, end: 0, len: 0 }
    }
}

impl TokenInfo {
    /// Locate a token from the current line, that line's starting byte
    /// offset, and the token's byte span: the column is the distance
    /// from the line's start, the length the span's width.
    pub fn new(line: usize, line_offset: usize, start: usize, end: usize) -> (r: TokenInfo)
        requires
            line_offset <= start <= end,
        ensures
            r == (TokenInfo {
                line,
                line_offset,
                col: (start - line_offset) as usize,
                start,
                end,
                len: (end - start) as usize,
            }),
    {
        TokenInfo { line, line_offset, col: start - line_offset, start, end, len: end - start }
    }

    /// Record a newline: the line count steps up and the next line
    /// begins at byte offset `end`; the span fields stay as they were.
    pub fn advance_line(&mut self, end: usize)
        requires
            old(self).line < usize::MAX,
        ensures
            *final(self) == (TokenInfo {
                line: (old(self).line + 1) as usize,
                line_offset: end,
                ..(*old(self))
            }),
    {
        self.line = self.line + 1;
        self.line_offset = end;
    }
}

} // verus!
