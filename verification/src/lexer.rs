use crate::tokens::{
    is_delimiter, push_char, spec_is_delimiter, Identifier, IdentifierKind, Token, TokenKind,
};
use vstd::prelude::*;
use vstd::std_specs::iter::IteratorSpec;
use vstd::string::StringExecFns;

verus! {

/// A failed tokenization, positioned at the character that caused it.
#[derive(Debug, PartialEq)]
pub struct LexError {
    pub line: usize,
    pub column: usize,
    pub kind: LexErrorKind,
}

/// Every way tokenization can fail.
#[derive(Debug, PartialEq, Clone, Copy, Eq, Structural)]
pub enum LexErrorKind {
    /// The input ended inside a literal.
    UnexpectedEof,
    /// A second `.` inside one numeric literal.
    UnexpectedDot,
    /// A backslash followed by a character that names no escape.
    InvalidEscape,
    /// A `\u` escape that is not four hex digits naming a valid character.
    InvalidUnicodeEscape,
    /// A bare newline inside a char literal.
    UnexpectedNewline,
    /// A char literal not closed by a single quote.
    ExpectedSingleQuote,
    /// A string literal not opened by a double quote.
    ExpectedDoubleQuote,
}

/// Whether `c` has the Unicode white-space property, the set the standard
/// library's whitespace test decides.
pub open spec fn spec_is_whitespace(c: char) -> bool {
    c == ' ' || c == '\t' || c == '\n' || c == '\r' || c == '\u{0B}' || c == '\u{0C}'
        || c == '\u{85}' || c == '\u{A0}' || c == '\u{1680}' || c == '\u{2000}' || c == '\u{2001}'
        || c == '\u{2002}' || c == '\u{2003}' || c == '\u{2004}' || c == '\u{2005}'
        || c == '\u{2006}' || c == '\u{2007}' || c == '\u{2008}' || c == '\u{2009}'
        || c == '\u{200A}' || c == '\u{2028}' || c == '\u{2029}' || c == '\u{202F}'
        || c == '\u{205F}' || c == '\u{3000}'
}

/// Whether `c` has the Unicode white-space property.
pub fn is_whitespace(c: char) -> (r: bool)
    ensures
        r == spec_is_whitespace(c),
{
    c == ' ' || c == '\t' || c == '\n' || c == '\r' || c == '\u{0B}' || c == '\u{0C}'
        || c == '\u{85}' || c == '\u{A0}' || c == '\u{1680}' || c == '\u{2000}' || c == '\u{2001}'
        || c == '\u{2002}' || c == '\u{2003}' || c == '\u{2004}' || c == '\u{2005}'
        || c == '\u{2006}' || c == '\u{2007}' || c == '\u{2008}' || c == '\u{2009}'
        || c == '\u{200A}' || c == '\u{2028}' || c == '\u{2029}' || c == '\u{202F}'
        || c == '\u{205F}' || c == '\u{3000}'
}

/// Whether `c` is an ASCII decimal digit.
pub open spec fn spec_is_digit(c: char) -> bool {
    '0' <= c && c <= '9'
}

/// Whether `c` is an ASCII decimal digit.
pub fn is_digit(c: char) -> (r: bool)
    ensures
        r == spec_is_digit(c),
{
    '0' <= c && c <= '9'
}

/// Whether `c` is an ASCII hexadecimal digit.
pub open spec fn spec_is_hexdigit(c: char) -> bool {
    ('0' <= c && c <= '9') || ('a' <= c && c <= 'f') || ('A' <= c && c <= 'F')
}

/// Whether `c` is an ASCII hexadecimal digit.
pub fn is_hexdigit(c: char) -> (r: bool)
    ensures
        r == spec_is_hexdigit(c),
{
    ('0' <= c && c <= '9') || ('a' <= c && c <= 'f') || ('A' <= c && c <= 'F')
}

/// The numeric value of an ASCII hexadecimal digit.
pub open spec fn spec_hex_val(c: char) -> u32 {
    if '0' <= c && c <= '9' {
        ((c as u32) - 48) as u32
    } else if 'a' <= c && c <= 'f' {
        ((c as u32) - 87) as u32
    } else {
        ((c as u32) - 55) as u32
    }
}

/// The numeric value of an ASCII hexadecimal digit.
pub fn hex_val(c: char) -> (r: u32)
    requires
        spec_is_hexdigit(c),
    ensures
        r == spec_hex_val(c),
        r < 16,
{
    let u = c as u32;
    if u >= 48 && u <= 57 {
        u - 48
    } else if u >= 97 {
        u - 87
    } else {
        u - 55
    }
}

/// The character a simple backslash escape names, if any; `\u`, and the
/// line continuation `\` + newline, are handled separately.
pub open spec fn spec_simple_escape(c: char) -> Option<char> {
    if c == 'n' {
        Some('\n')
    } else if c == 'r' {
        Some('\r')
    } else if c == 't' {
        Some('\t')
    } else if c == '\\' {
        Some('\\')
    } else if c == '\'' {
        Some('\'')
    } else if c == '"' {
        Some('"')
    } else if c == '0' {
        Some('\0')
    } else {
        None
    }
}

/// The tokenizer: a character buffer, a cursor, the line and column of the
/// cursor, and the saved position where the current token started.
#[derive(Debug)]
pub struct Lexer {
    pub input: Vec<char>,
    pub position: usize,
    pub line: usize,
    pub column: usize,
    pub saved_line: usize,
    pub saved_column: usize,
}

impl Lexer {
    /// The cursor is inside the buffer and the line and column counters
    /// cannot outrun it.
    pub open spec fn wf(&self) -> bool {
        self.position <= self.input@.len() && 1 <= self.line && 1 <= self.column && self.line - 1
            <= self.position && self.column - 1 <= self.position
    }

    /// A lexer over the characters of `input`, at the start of line 1.
    pub fn new(input: String) -> (r: Lexer)
        ensures
            r.input@ == input@,
            r.position == 0,
            r.line == 1,
            r.column == 1,
            r.saved_line == 1,
            r.saved_column == 1,
            r.wf(),
    {
        let mut chars: Vec<char> = Vec::new();
        let sref = input.as_str();
        let mut it = sref.chars();
        proof {
            vstd::string::axiom_spec_iter(sref);
        }
        loop
            invariant
                it.obeys_prophetic_iter_laws(),
                chars@ + it.remaining() == input@,
            ensures
                chars@ == input@,
            decreases input@.len() - chars@.len(),
        {
            let ghost pre = it;
            match it.next() {
                Some(c) => {
                    proof {
                        vstd::string::next_postcondition(&pre, &it, Some(c));
                        assert(chars@.push(c) + it.remaining() =~= chars@ + pre.remaining());
                    }
                    chars.push(c);
                },
                None => {
                    proof {
                        vstd::string::next_postcondition(&pre, &it, None::<char>);
                        assert(chars@ + pre.remaining() =~= chars@);
                    }
                    break;
                },
            }
        }
        proof {
            assert(chars@ + Seq::<char>::empty() =~= chars@);
        }
        Lexer {
            input: chars,
            position: 0,
            line: 1,
            column: 1,
            saved_line: 1,
            saved_column: 1,
        }
    }

    /// The character under the cursor, if any.
    pub fn current_char(&self) -> (r: Option<char>)
        ensures
            r == (if self.position < self.input@.len() {
                Some(self.input@[self.position as int])
            } else {
                None::<char>
            }),
    {
        if self.position < self.input.len() {
            Some(self.input[self.position])
        } else {
            None
        }
    }

    /// Step the cursor one character forward, advancing the line counter
    /// over a newline and the column counter otherwise.
    pub fn advance(&mut self)
        requires
            old(self).wf(),
            old(self).position < old(self).input@.len(),
        ensures
            final(self).input == old(self).input,
            final(self).position == old(self).position + 1,
            final(self).saved_line == old(self).saved_line,
            final(self).saved_column == old(self).saved_column,
            old(self).input@[old(self).position as int] == '\n' ==> final(self).column == 1
                && final(self).line == (if old(self).line < usize::MAX {
                old(self).line + 1
            } else {
                old(self).line as int
            }),
            old(self).input@[old(self).position as int] != '\n' ==> final(self).line == old(
                self,
            ).line && final(self).column == (if old(self).column < usize::MAX {
                old(self).column + 1
            } else {
                old(self).column as int
            }),
            final(self).wf(),
    {
        if let Some(ch) = self.current_char() {
            if ch == '\n' {
                if self.line < usize::MAX {
                    self.line = self.line + 1;
                }
                self.column = 1;
            } else {
                if self.column < usize::MAX {
                    self.column = self.column + 1;
                }
            }
        }
        proof {
            vstd::std_specs::vec::axiom_spec_len(&self.input);
        }
        self.position = self.position + 1;
    }

    /// Remember the cursor's line and column as the start of the token
    /// being read.
    pub fn save_position(&mut self)
        ensures
            *final(self) == (Lexer {
                saved_line: old(self).line,
                saved_column: old(self).column,
                ..*old(self)
            }),
    {
        self.saved_line = self.line;
        self.saved_column = self.column;
    }

    /// An error positioned at the saved token start.
    pub fn error(&self, kind: LexErrorKind) -> (r: LexError)
        ensures
            r == (LexError { line: self.saved_line, column: self.saved_column, kind }),
    {
        LexError { line: self.saved_line, column: self.saved_column, kind }
    }

    /// Save the current position, then make an error there.
    pub fn error_here(&mut self, kind: LexErrorKind) -> (r: LexError)
        ensures
            *final(self) == (Lexer {
                saved_line: old(self).line,
                saved_column: old(self).column,
                ..*old(self)
            }),
            r == (LexError { line: old(self).line, column: old(self).column, kind }),
    {
        self.save_position();
        self.error(kind)
    }

    /// An error at the saved token start, as a failed result.
    pub fn err<T>(&self, kind: LexErrorKind) -> (r: Result<T, LexError>)
        ensures
            r == Err::<T, LexError>(
                LexError { line: self.saved_line, column: self.saved_column, kind },
            ),
    {
        Err(self.error(kind))
    }

    /// Save the current position, then fail there.
    pub fn err_here<T>(&mut self, kind: LexErrorKind) -> (r: Result<T, LexError>)
        ensures
            *final(self) == (Lexer {
                saved_line: old(self).line,
                saved_column: old(self).column,
                ..*old(self)
            }),
            r == Err::<T, LexError>(
                LexError { line: old(self).line, column: old(self).column, kind },
            ),
    {
        Err(self.error_here(kind))
    }

    /// Step the cursor past every white-space character under it.
    pub fn skip_whitespace(&mut self)
        requires
            old(self).wf(),
        ensures
            final(self).input == old(self).input,
            final(self).saved_line == old(self).saved_line,
            final(self).saved_column == old(self).saved_column,
            old(self).position <= final(self).position <= final(self).input@.len(),
            forall|k: int|
                old(self).position <= k < final(self).position ==> spec_is_whitespace(
                    final(self).input@[k],
                ),
            final(self).position < final(self).input@.len() ==> !spec_is_whitespace(
                final(self).input@[final(self).position as int],
            ),
            final(self).wf(),
    {
        while self.position < self.input.len() && is_whitespace(self.input[self.position])
            invariant
                self.wf(),
                self.input == old(self).input,
                self.saved_line == old(self).saved_line,
                self.saved_column == old(self).saved_column,
                old(self).position <= self.position <= self.input@.len(),
                forall|k: int|
                    old(self).position <= k < self.position ==> spec_is_whitespace(
                        self.input@[k],
                    ),
            decreases self.input@.len() - self.position,
        {
            self.advance();
        }
    }
    /// Read one numeric literal: the maximal run of digits and dots from
    /// the cursor, with at most one dot, carried as its source text.
    pub fn read_number(&mut self) -> (r: Result<Token, LexError>)
        requires
            old(self).wf(),
            old(self).position < old(self).input@.len(),
            spec_is_digit(old(self).input@[old(self).position as int]),
        ensures
            final(self).input == old(self).input,
            final(self).wf(),
            old(self).position <= final(self).position <= final(self).input@.len(),
            match r {
                Ok(t) => {
                    &&& old(self).position < final(self).position <= final(self).input@.len()
                    &&& t@.kind matches crate::tokens::TokenKindV::Float(txt) && txt == old(
                        self,
                    ).input@.subrange(old(self).position as int, final(self).position as int)
                    &&& forall|k: int|
                        old(self).position <= k < final(self).position ==> spec_is_digit(
                            final(self).input@[k],
                        ) || final(self).input@[k] == '.'
                    &&& final(self).position < final(self).input@.len() ==> !(spec_is_digit(
                        final(self).input@[final(self).position as int],
                    ) || final(self).input@[final(self).position as int] == '.')
                    &&& t@.line == old(self).line && t@.column == old(self).column
                },
                Err(e) => e.kind == LexErrorKind::UnexpectedDot,
            },
    {
        let ghost p0 = self.position;
        let mut number = String::new();
        let mut seen_dot = false;
        self.save_position();
        loop
            invariant
                self.wf(),
                self.input == old(self).input,
                p0 == old(self).position,
                p0 <= self.position <= self.input@.len(),
                self.saved_line == old(self).line,
                self.saved_column == old(self).column,
                number@ == self.input@.subrange(p0 as int, self.position as int),
                forall|k: int|
                    p0 <= k < self.position ==> spec_is_digit(self.input@[k])
                        || self.input@[k] == '.',
            ensures
                self.wf(),
                self.input == old(self).input,
                p0 <= self.position <= self.input@.len(),
                self.saved_line == old(self).line,
                self.saved_column == old(self).column,
                number@ == self.input@.subrange(p0 as int, self.position as int),
                forall|k: int|
                    p0 <= k < self.position ==> spec_is_digit(self.input@[k])
                        || self.input@[k] == '.',
                self.position < self.input@.len() ==> !(spec_is_digit(
                    self.input@[self.position as int],
                ) || self.input@[self.position as int] == '.'),
            decreases self.input@.len() - self.position,
        {
            if self.position >= self.input.len() {
                break;
            }
            let ch = self.input[self.position];
            if !(is_digit(ch) || ch == '.') {
                break;
            }
            if ch == '.' {
                if seen_dot {
                    return self.err_here(LexErrorKind::UnexpectedDot);
                }
                seen_dot = true;
            }
            let ghost numpre = number@;
            push_char(&mut number, ch);
            let ghost ppre = self.position;
            self.advance();
            proof {
                assert(number@ =~= self.input@.subrange(p0 as int, self.position as int));
            }
        }
        proof {
            assert(p0 < self.position) by {
                assert(spec_is_digit(self.input@[p0 as int]));
            }
        }
        Ok(Token { kind: TokenKind::Float(number), line: self.saved_line, column: self.saved_column })
    }

    /// Read one character of a char or string literal's content,
    /// resolving backslash escapes; `Ok(None)` is an escaped newline
    /// swallowed inside a string.
    pub fn read_single_char(&mut self, skip_nl: bool) -> (r: Result<Option<char>, LexError>)
        requires
            old(self).wf(),
        ensures
            final(self).input == old(self).input,
            final(self).wf(),
            old(self).position <= final(self).position <= final(self).input@.len(),
            match r {
                Ok(opt) => {
                    let iv = old(self).input@;
                    let p0 = old(self).position as int;
                    &&& old(self).position < final(self).position <= final(self).input@.len()
                    &&& (opt is Some || skip_nl)
                    &&& (p0 < iv.len() && iv[p0] != '\\' ==> opt == Some(iv[p0])
                        && final(self).position == p0 + 1 && (iv[p0] != '\n' || skip_nl))
                    &&& (p0 + 1 < iv.len() && iv[p0] == '\\' && spec_simple_escape(iv[p0 + 1])
                        is Some ==> opt == spec_simple_escape(iv[p0 + 1]) && final(self).position
                        == p0 + 2)
                    &&& (p0 + 1 < iv.len() && iv[p0] == '\\' && iv[p0 + 1] == '\n' && skip_nl
                        ==> opt is None && final(self).position == p0 + 2)
                    &&& (p0 + 1 < iv.len() && iv[p0] == '\\' && iv[p0 + 1] == 'u' ==> opt is Some
                        && final(self).position == p0 + 6)
                },
                Err(e) => e.kind == LexErrorKind::UnexpectedEof || e.kind
                    == LexErrorKind::InvalidEscape || e.kind == LexErrorKind::InvalidUnicodeEscape
                    || e.kind == LexErrorKind::UnexpectedNewline,
            },
    {
        self.save_position();
        let first = match self.current_char() {
            Some(c) => c,
            None => {
                return self.err(LexErrorKind::UnexpectedEof);
            },
        };
        self.advance();
        if first == '\\' {
            let esc = match self.current_char() {
                Some(c) => c,
                None => {
                    return self.err(LexErrorKind::UnexpectedEof);
                },
            };
            self.advance();
            if esc == 'n' {
                Ok(Some('\n'))
            } else if esc == 'r' {
                Ok(Some('\r'))
            } else if esc == 't' {
                Ok(Some('\t'))
            } else if esc == '\\' {
                Ok(Some('\\'))
            } else if esc == '\'' {
                Ok(Some('\''))
            } else if esc == '"' {
                Ok(Some('"'))
            } else if esc == '0' {
                Ok(Some('\0'))
            } else if esc == '\n' && skip_nl {
                Ok(None)
            } else if esc == 'u' {
                let mut value: u32 = 0;
                let mut k: usize = 0;
                while k < 4
                    invariant
                        k <= 4,
                        value < (if k == 0 {
                            1u32
                        } else if k == 1 {
                            16u32
                        } else if k == 2 {
                            256u32
                        } else if k == 3 {
                            4096u32
                        } else {
                            65536u32
                        }),
                        self.wf(),
                        self.input == old(self).input,
                        old(self).position + 2 <= self.position <= self.input@.len(),
                        self.position == old(self).position + 2 + k,
                    decreases 4 - k,
                {
                    let ch = match self.current_char() {
                        Some(c) => c,
                        None => {
                            return self.err(LexErrorKind::UnexpectedEof);
                        },
                    };
                    if !is_hexdigit(ch) {
                        return self.err_here(LexErrorKind::InvalidUnicodeEscape);
                    }
                    value = value * 16 + hex_val(ch);
                    self.advance();
                    k = k + 1;
                }
                match char_from_u32(value) {
                    Some(ch) => Ok(Some(ch)),
                    None => self.err_here(LexErrorKind::InvalidUnicodeEscape),
                }
            } else {
                self.err_here(LexErrorKind::InvalidEscape)
            }
        } else if first == '\n' && !skip_nl {
            self.err_here(LexErrorKind::UnexpectedNewline)
        } else {
            Ok(Some(first))
        }
    }
    /// Read one char literal: an opening quote, one possibly escaped
    /// character, and a closing quote.
    pub fn read_char_literal(&mut self) -> (r: Result<Token, LexError>)
        requires
            old(self).wf(),
        ensures
            final(self).input == old(self).input,
            final(self).wf(),
            old(self).position <= final(self).position <= final(self).input@.len(),
            match r {
                Ok(t) => t@.kind is Char && old(self).position < final(self).position
                    <= final(self).input@.len(),
                Err(e) => e.kind == LexErrorKind::ExpectedSingleQuote || e.kind
                    == LexErrorKind::UnexpectedEof || e.kind == LexErrorKind::InvalidEscape
                    || e.kind == LexErrorKind::InvalidUnicodeEscape || e.kind
                    == LexErrorKind::UnexpectedNewline,
            },
    {
        self.save_position();
        let opened = match self.current_char() {
            Some(c) => c == '\'',
            None => false,
        };
        if !opened {
            return self.err_here(LexErrorKind::ExpectedSingleQuote);
        }
        self.advance();
        let ch = match self.read_single_char(false) {
            Ok(Some(c)) => c,
            Ok(None) => {
                proof {
                    assert(false);
                }
                return self.err(LexErrorKind::ExpectedSingleQuote);
            },
            Err(e) => {
                return Err(e);
            },
        };
        let closed = match self.current_char() {
            Some(c) => c == '\'',
            None => false,
        };
        if !closed {
            return self.err_here(LexErrorKind::ExpectedSingleQuote);
        }
        self.advance();
        Ok(Token { kind: TokenKind::Char(ch), line: self.saved_line, column: self.saved_column })
    }

    /// Read one string literal: an opening double quote, any run of
    /// possibly escaped characters, and a closing double quote.
    pub fn read_string_literal(&mut self) -> (r: Result<Token, LexError>)
        requires
            old(self).wf(),
        ensures
            final(self).input == old(self).input,
            final(self).wf(),
            old(self).position <= final(self).position <= final(self).input@.len(),
            match r {
                Ok(t) => t@.kind is String && old(self).position < final(self).position
                    <= final(self).input@.len(),
                Err(e) => e.kind == LexErrorKind::ExpectedDoubleQuote || e.kind
                    == LexErrorKind::UnexpectedEof || e.kind == LexErrorKind::InvalidEscape
                    || e.kind == LexErrorKind::InvalidUnicodeEscape || e.kind
                    == LexErrorKind::UnexpectedNewline,
            },
    {
        self.save_position();
        let opened = match self.current_char() {
            Some(c) => c == '"',
            None => false,
        };
        if !opened {
            return self.err_here(LexErrorKind::ExpectedDoubleQuote);
        }
        self.advance();
        let mut string = String::new();
        loop
            invariant
                self.wf(),
                self.input == old(self).input,
                old(self).position < self.position <= self.input@.len(),
            decreases self.input@.len() - self.position,
        {
            match self.current_char() {
                Some(ch) => {
                    if ch == '"' {
                        self.advance();
                        return Ok(
                            Token {
                                kind: TokenKind::String(string),
                                line: self.saved_line,
                                column: self.saved_column,
                            },
                        );
                    }
                    match self.read_single_char(true) {
                        Ok(Some(c)) => {
                            push_char(&mut string, c);
                        },
                        Ok(None) => {},
                        Err(e) => {
                            return Err(e);
                        },
                    }
                },
                None => {
                    return self.err_here(LexErrorKind::UnexpectedEof);
                },
            }
        }
    }

    /// Read one identifier: an optional sigil (`@` for a macro name, `$`
    /// for a type name), then the maximal run of characters that are
    /// neither white space nor delimiters. A plain identifier spelling
    /// `true` or `false` is the corresponding boolean literal.
    pub fn read_identifier(&mut self, first: char) -> (t: Token)
        requires
            old(self).wf(),
            old(self).position < old(self).input@.len(),
            old(self).input@[old(self).position as int] == first,
            first == '@' || first == '$' || (!spec_is_whitespace(first) && !spec_is_delimiter(
                first,
            )),
        ensures
            final(self).input == old(self).input,
            final(self).wf(),
            old(self).position < final(self).position <= final(self).input@.len(),
            final(self).position < final(self).input@.len() ==> spec_is_whitespace(
                final(self).input@[final(self).position as int],
            ) || spec_is_delimiter(final(self).input@[final(self).position as int]),
            first == '@' ==> (t@.kind matches crate::tokens::TokenKindV::Identifier(id)
                && id.kind == IdentifierKind::Macro),
            first == '$' ==> (t@.kind matches crate::tokens::TokenKindV::Identifier(id)
                && id.kind == IdentifierKind::Type),
            first != '@' && first != '$' ==> ((t@.kind matches crate::tokens::TokenKindV::Identifier(
                id,
            ) && id.kind == IdentifierKind::Variable && id.name != ("true")@ && id.name != (
            "false")@) || t@.kind == crate::tokens::TokenKindV::Bool(true) || t@.kind
                == crate::tokens::TokenKindV::Bool(false)),
            (t@.kind matches crate::tokens::TokenKindV::Identifier(id) ==> id.name
                == final(self).input@.subrange(
                old(self).position + (if first == '@' || first == '$' {
                    1int
                } else {
                    0int
                }),
                final(self).position as int,
            )),
            t@.line == old(self).line && t@.column == old(self).column,
    {
        self.save_position();
        let is_sigil = first == '@' || first == '$';
        if is_sigil {
            self.advance();
        }
        let ghost start = self.position;
        let mut identifier = String::new();
        loop
            invariant
                self.wf(),
                self.input == old(self).input,
                start == old(self).position + (if first == '@' || first == '$' {
                    1int
                } else {
                    0int
                }),
                start <= self.position <= self.input@.len(),
                self.saved_line == old(self).line,
                self.saved_column == old(self).column,
                identifier@ == self.input@.subrange(start as int, self.position as int),
                first != '@' && first != '$' ==> !spec_is_whitespace(first)
                    && !spec_is_delimiter(first) && self.input@[start as int] == first,
            ensures
                self.wf(),
                self.input == old(self).input,
                start <= self.position <= self.input@.len(),
                self.saved_line == old(self).line,
                self.saved_column == old(self).column,
                identifier@ == self.input@.subrange(start as int, self.position as int),
                self.position < self.input@.len() ==> spec_is_whitespace(
                    self.input@[self.position as int],
                ) || spec_is_delimiter(self.input@[self.position as int]),
            decreases self.input@.len() - self.position,
        {
            if self.position >= self.input.len() {
                break;
            }
            let ch = self.input[self.position];
            if is_whitespace(ch) || is_delimiter(ch) {
                break;
            }
            push_char(&mut identifier, ch);
            self.advance();
            proof {
                assert(identifier@ =~= self.input@.subrange(start as int, self.position as int));
            }
        }
        proof {
            if first != '@' && first != '$' {
                assert(start < self.position) by {
                    assert(self.input@[start as int] == first);
                }
            }
        }
        if !is_sigil {
            if crate::tokens::string_eq(&identifier, &String::from_str("true")) {
                return Token {
                    kind: TokenKind::Bool(true),
                    line: self.saved_line,
                    column: self.saved_column,
                };
            }
            if crate::tokens::string_eq(&identifier, &String::from_str("false")) {
                return Token {
                    kind: TokenKind::Bool(false),
                    line: self.saved_line,
                    column: self.saved_column,
                };
            }
        }
        let kind = if first == '@' {
            IdentifierKind::Macro
        } else if first == '$' {
            IdentifierKind::Type
        } else {
            IdentifierKind::Variable
        };
        Token {
            kind: TokenKind::Identifier(Identifier { name: identifier, kind }),
            line: self.saved_line,
            column: self.saved_column,
        }
    }

    /// Read the next token: skip white space, then dispatch on the first
    /// character; at the end of the input the token is `EOF`.
    pub fn next_token(&mut self) -> (r: Result<Token, LexError>)
        requires
            old(self).wf(),
        ensures
            final(self).input == old(self).input,
            final(self).wf(),
            old(self).position <= final(self).position <= final(self).input@.len(),
            r matches Ok(t) ==> (t@.kind is EOF ==> final(self).position
                == final(self).input@.len()) && (!(t@.kind is EOF) ==> old(self).position
                < final(self).position),
    {
        self.skip_whitespace();
        match self.current_char() {
            Some(ch) => {
                if is_delimiter(ch) {
                    self.advance();
                    Ok(
                        Token {
                            kind: TokenKind::Delimiter(ch),
                            line: self.line,
                            column: self.column,
                        },
                    )
                } else if ch == '"' {
                    self.read_string_literal()
                } else if ch == '\'' {
                    self.read_char_literal()
                } else if is_digit(ch) {
                    self.read_number()
                } else {
                    Ok(self.read_identifier(ch))
                }
            },
            None => Ok(Token { kind: TokenKind::EOF, line: self.line, column: self.column }),
        }
    }

    /// Tokenize the whole input: every token up to, and not including,
    /// the end-of-input token.
    pub fn lex(&mut self) -> (r: Result<Vec<Token>, LexError>)
        requires
            old(self).wf(),
        ensures
            final(self).wf(),
            final(self).input == old(self).input,
            r matches Ok(ts) ==> final(self).position == final(self).input@.len()
                && (forall|i: int| 0 <= i < ts@.len() ==> !((#[trigger] ts@[i])@.kind is EOF)),
    {
        let mut tokens: Vec<Token> = Vec::new();
        loop
            invariant
                self.wf(),
                self.input == old(self).input,
                forall|i: int| 0 <= i < tokens@.len() ==> !((#[trigger] tokens@[i])@.kind is EOF),
            decreases self.input@.len() - self.position,
        {
            match self.next_token() {
                Ok(t) => {
                    let eof = match &t.kind {
                        TokenKind::EOF => true,
                        _ => false,
                    };
                    if eof {
                        return Ok(tokens);
                    }
                    tokens.push(t);
                },
                Err(e) => {
                    return Err(e);
                },
            }
        }
    }
}

/// The character with a given code point, if it is one.
///
/// Relies on `char::from_u32`: it returns `Some` exactly when the value is
/// not a surrogate and not above the maximum scalar value, and the
/// character returned has that code point.
#[verifier::external_body]
fn char_from_u32(n: u32) -> (r: Option<char>)
    ensures
        (r is Some) == (n < 0xD800 || (0xDFFF < n && n <= 0x10FFFF)),
        r matches Some(c) ==> c as u32 == n,
{
    char::from_u32(n)
}

} // verus!
