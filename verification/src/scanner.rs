//! The lexer: turns source text into a flat sequence of tokens.
//!
//! `scan_spec` is the lexing specification: a recursive function from the
//! character sequence (and the running line and id counters) to the exact
//! token list — kind, lexeme, literal payload, line and id of every token,
//! every lexical error, and the single end-of-input token at the end.
//! `scan_tokens` is proved to return exactly that list.  Token ids are
//! strictly increasing, which is what lets the resolution map key on them.

use vstd::prelude::*;
use vstd::string::StringExecFns;

use crate::text::{chars_to_string, chars_vec};
use crate::token::{LiteralV, LiteralValue, Token, TokenKind, TokenV};

verus! {

/// A lexical error.  A malformed literal is a number too large for the
/// integer type or a fractional literal, which this evaluator does not
/// support.
#[derive(Debug, Clone, Copy, PartialEq, Eq, Structural)]
pub enum ScannerError {
    UnexpectedToken,
    UnterminatedString,
    MalformedLiteral,
}

/// A decimal digit.
pub open spec fn is_digit_char(c: char) -> bool {
    '0' <= c <= '9'
}

/// A character that may start or continue an identifier.
pub open spec fn is_ident_char(c: char) -> bool {
    ('a' <= c <= 'z') || ('A' <= c <= 'Z') || c == '_'
}

/// The integer a digit sequence denotes.
pub open spec fn digits_value(s: Seq<char>) -> int
    decreases s.len(),
{
    if s.len() == 0 {
        0
    } else {
        digits_value(s.drop_last()) * 10 + (s.last() as int - 48)
    }
}

/// The keyword a lexeme spells, if it is one.
pub open spec fn keyword_kind_spec(s: Seq<char>) -> Option<TokenKind> {
    if s == "and"@ {
        Some(TokenKind::And)
    } else if s == "or"@ {
        Some(TokenKind::Or)
    } else if s == "class"@ {
        Some(TokenKind::Class)
    } else if s == "if"@ {
        Some(TokenKind::If)
    } else if s == "else"@ {
        Some(TokenKind::Else)
    } else if s == "true"@ {
        Some(TokenKind::True)
    } else if s == "false"@ {
        Some(TokenKind::False)
    } else if s == "fn"@ {
        Some(TokenKind::Fn)
    } else if s == "for"@ {
        Some(TokenKind::For)
    } else if s == "in"@ {
        Some(TokenKind::In)
    } else if s == "while"@ {
        Some(TokenKind::While)
    } else if s == "nil"@ {
        Some(TokenKind::Nil)
    } else if s == "print"@ {
        Some(TokenKind::Print)
    } else if s == "return"@ {
        Some(TokenKind::Return)
    } else if s == "var"@ {
        Some(TokenKind::Var)
    } else if s == "const"@ {
        Some(TokenKind::Const)
    } else if s == "this"@ {
        Some(TokenKind::This)
    } else {
        None
    }
}

/// The line counter after a newline (it saturates rather than wrap).
pub open spec fn next_line(line: int) -> int {
    if line < usize::MAX {
        line + 1
    } else {
        line
    }
}

/// A token at the given position of the source.
pub open spec fn tok_at(
    kind: TokenKind,
    lexeme: Seq<char>,
    literal: LiteralV,
    line: int,
    id: int,
) -> TokenV {
    TokenV { kind, lexeme, literal, line, id }
}

/// What the scanner produces from position `pos` on: every remaining token
/// or error, ending with the end-of-input token.
pub open spec fn scan_spec(src: Seq<char>, pos: int, line: int, id: int) -> Seq<Result<
    TokenV,
    ScannerError,
>>
    decreases src.len() - pos, 1int,
{
    if !(0 <= pos < src.len()) {
        seq![Ok(tok_at(TokenKind::Eof, Seq::empty(), LiteralV::Absent, line, id + 1))]
    } else {
        let c = src[pos];
        if c == '(' {
            scan_one(src, pos, line, id, TokenKind::LeftParen)
        } else if c == ')' {
            scan_one(src, pos, line, id, TokenKind::RightParen)
        } else if c == '[' {
            scan_one(src, pos, line, id, TokenKind::LeftBrace)
        } else if c == ']' {
            scan_one(src, pos, line, id, TokenKind::RightBrace)
        } else if c == '{' {
            scan_one(src, pos, line, id, TokenKind::LeftCurly)
        } else if c == '}' {
            scan_one(src, pos, line, id, TokenKind::RightCurly)
        } else if c == ',' {
            scan_one(src, pos, line, id, TokenKind::Comma)
        } else if c == '-' {
            scan_one(src, pos, line, id, TokenKind::Minus)
        } else if c == '+' {
            scan_one(src, pos, line, id, TokenKind::Plus)
        } else if c == ';' {
            scan_one(src, pos, line, id, TokenKind::Semicolon)
        } else if c == '*' {
            scan_one(src, pos, line, id, TokenKind::Star)
        } else if c == '!' {
            scan_pair(src, pos, line, id, '=', TokenKind::BangEqual, TokenKind::Bang)
        } else if c == '.' {
            scan_pair(src, pos, line, id, '.', TokenKind::DotDot, TokenKind::Dot)
        } else if c == '=' {
            scan_pair(src, pos, line, id, '=', TokenKind::EqualEqual, TokenKind::Equal)
        } else if c == '<' {
            scan_pair(src, pos, line, id, '=', TokenKind::LessEqual, TokenKind::Less)
        } else if c == '>' {
            scan_pair(src, pos, line, id, '=', TokenKind::GreaterEqual, TokenKind::Greater)
        } else if c == '/' {
            if pos + 1 < src.len() && src[pos + 1] == '/' {
                scan_comment_spec(src, pos + 2, line, id)
            } else {
                scan_one(src, pos, line, id, TokenKind::Slash)
            }
        } else if c == ' ' || c == '\r' || c == '\t' {
            scan_spec(src, pos + 1, line, id)
        } else if c == '\n' {
            scan_spec(src, pos + 1, next_line(line), id)
        } else if c == '"' {
            scan_string_spec(src, pos, pos + 1, line, id)
        } else if is_digit_char(c) {
            scan_number_spec(src, pos, pos + 1, line, id)
        } else if is_ident_char(c) {
            scan_ident_spec(src, pos, pos + 1, line, id)
        } else {
            seq![Err(ScannerError::UnexpectedToken)] + scan_spec(src, pos + 1, line, id)
        }
    }
}

/// One single-character token at `pos`, then the rest.
pub open spec fn scan_one(src: Seq<char>, pos: int, line: int, id: int, kind: TokenKind) -> Seq<
    Result<TokenV, ScannerError>,
>
    decreases src.len() - pos, 0int,
{
    if 0 <= pos < src.len() {
        seq![
            Ok(tok_at(kind, src.subrange(pos, pos + 1), LiteralV::Absent, line, id + 1)),
        ] + scan_spec(src, pos + 1, line, id + 1)
    } else {
        Seq::empty()
    }
}

/// A one-or-two-character token at `pos`: `two` when the next character is
/// `follow`, else `one`; then the rest.
pub open spec fn scan_pair(
    src: Seq<char>,
    pos: int,
    line: int,
    id: int,
    follow: char,
    two: TokenKind,
    one: TokenKind,
) -> Seq<Result<TokenV, ScannerError>>
    decreases src.len() - pos, 0int,
{
    if !(0 <= pos < src.len()) {
        Seq::empty()
    } else if pos + 1 < src.len() && src[pos + 1] == follow {
        seq![
            Ok(tok_at(two, src.subrange(pos, pos + 2), LiteralV::Absent, line, id + 1)),
        ] + scan_spec(src, pos + 2, line, id + 1)
    } else {
        seq![
            Ok(tok_at(one, src.subrange(pos, pos + 1), LiteralV::Absent, line, id + 1)),
        ] + scan_spec(src, pos + 1, line, id + 1)
    }
}

/// Skip the rest of a line comment: everything up to the next newline
/// (which the main loop then counts), then the rest.
pub open spec fn scan_comment_spec(src: Seq<char>, pos: int, line: int, id: int) -> Seq<Result<
    TokenV,
    ScannerError,
>>
    decreases src.len() - pos, 2int,
{
    if 0 <= pos < src.len() && src[pos] != '\n' {
        scan_comment_spec(src, pos + 1, line, id)
    } else {
        scan_spec(src, pos, line, id)
    }
}

/// The rest of a string literal whose opening quote stands at `start`: at
/// the closing quote, a string token whose payload is the text between the
/// quotes; at end of input, an unterminated-string error (and then only the
/// end-of-input token remains).
pub open spec fn scan_string_spec(src: Seq<char>, start: int, pos: int, line: int, id: int) -> Seq<
    Result<TokenV, ScannerError>,
>
    decreases src.len() - pos, 2int,
{
    if !(0 <= pos < src.len()) {
        seq![Err(ScannerError::UnterminatedString)] + scan_spec(src, pos, line, id)
    } else if src[pos] == '"' {
        seq![
            Ok(
                tok_at(
                    TokenKind::Literal,
                    src.subrange(start, pos + 1),
                    LiteralV::Str(src.subrange(start + 1, pos)),
                    line,
                    id + 1,
                ),
            ),
        ] + scan_spec(src, pos + 1, line, id + 1)
    } else {
        scan_string_spec(src, start, pos + 1, line, id)
    }
}

/// The rest of a number literal whose first digit stands at `start`: after
/// the digit run, a fractional tail is consumed and rejected as malformed,
/// an unrepresentably large value is malformed, and otherwise the token
/// carries the digits' integer value.
pub open spec fn scan_number_spec(src: Seq<char>, start: int, pos: int, line: int, id: int) -> Seq<
    Result<TokenV, ScannerError>,
>
    decreases src.len() - pos, 2int,
{
    if 0 <= pos < src.len() && is_digit_char(src[pos]) {
        scan_number_spec(src, start, pos + 1, line, id)
    } else if 0 <= pos && pos + 1 < src.len() && src[pos] == '.' && is_digit_char(src[pos + 1]) {
        scan_fraction_spec(src, pos + 1, line, id)
    } else {
        let lexeme = src.subrange(start, pos);
        if digits_value(lexeme) > i64::MAX {
            seq![Err(ScannerError::MalformedLiteral)] + scan_spec(src, pos, line, id)
        } else {
            seq![
                Ok(
                    tok_at(
                        TokenKind::Literal,
                        lexeme,
                        LiteralV::Int(digits_value(lexeme)),
                        line,
                        id + 1,
                    ),
                ),
            ] + scan_spec(src, pos, line, id + 1)
        }
    }
}

/// The fractional tail of a number literal: its digits are consumed and the
/// whole literal is rejected as malformed.
pub open spec fn scan_fraction_spec(src: Seq<char>, pos: int, line: int, id: int) -> Seq<Result<
    TokenV,
    ScannerError,
>>
    decreases src.len() - pos, 2int,
{
    if 0 <= pos < src.len() && is_digit_char(src[pos]) {
        scan_fraction_spec(src, pos + 1, line, id)
    } else {
        seq![Err(ScannerError::MalformedLiteral)] + scan_spec(src, pos, line, id)
    }
}

/// The rest of an identifier or keyword whose first character stands at
/// `start`.
pub open spec fn scan_ident_spec(src: Seq<char>, start: int, pos: int, line: int, id: int) -> Seq<
    Result<TokenV, ScannerError>,
>
    decreases src.len() - pos, 2int,
{
    if 0 <= pos < src.len() && (is_ident_char(src[pos]) || is_digit_char(src[pos])) {
        scan_ident_spec(src, start, pos + 1, line, id)
    } else {
        let lexeme = src.subrange(start, pos);
        let kind = match keyword_kind_spec(lexeme) {
            Some(k) => k,
            None => TokenKind::Identifier,
        };
        seq![Ok(tok_at(kind, lexeme, LiteralV::Absent, line, id + 1))] + scan_spec(
            src,
            pos,
            line,
            id + 1,
        )
    }
}

/// The image of the token list produced so far.
pub open spec fn results_view(ts: Seq<Result<Token, ScannerError>>) -> Seq<Result<
    TokenV,
    ScannerError,
>> {
    ts.map_values(
        |t: Result<Token, ScannerError>|
            match t {
                Ok(tk) => Ok(tk@),
                Err(e) => Err(e),
            },
    )
}

/// A longer digit run never denotes a smaller value.
proof fn lemma_digits_value_grows(s: Seq<char>, i: int, j: int)
    requires
        0 <= i <= j <= s.len(),
        forall|k: int| 0 <= k < s.len() ==> is_digit_char(#[trigger] s[k]),
    ensures
        0 <= digits_value(s.take(i)) <= digits_value(s.take(j)),
    decreases j - i,
{
    if i == j {
        lemma_digits_value_nonneg(s.take(i));
    } else {
        lemma_digits_value_grows(s, i, j - 1);
        let prefix = s.take(j);
        assert(prefix.drop_last() =~= s.take(j - 1));
        assert(digits_value(prefix) == digits_value(s.take(j - 1)) * 10 + (s[j - 1] as int - 48));
    }
}

/// A digit run denotes a nonnegative value.
proof fn lemma_digits_value_nonneg(s: Seq<char>)
    requires
        forall|k: int| 0 <= k < s.len() ==> is_digit_char(#[trigger] s[k]),
    ensures
        digits_value(s) >= 0,
    decreases s.len(),
{
    if s.len() > 0 {
        assert(forall|k: int|
            0 <= k < s.drop_last().len() ==> is_digit_char(#[trigger] s.drop_last()[k]));
        lemma_digits_value_nonneg(s.drop_last());
    }
}

/// The lexer's state: the source as characters, the tokens produced so
/// far, and the bounds of the lexeme being scanned.
#[derive(Debug)]
pub struct Scanner {
    pub source: Vec<char>,
    pub tokens: Vec<Result<Token, ScannerError>>,
    pub start: usize,
    pub current: usize,
    pub line: usize,
    pub current_id: usize,
}

impl Scanner {
    /// The scanner's running bounds: the cursor stays inside the source and
    /// the id counter never outruns the cursor, so it cannot overflow.
    pub open spec fn wf(&self) -> bool {
        &&& self.start <= self.current <= self.source@.len()
        &&& self.current_id <= self.current
        &&& self.source@.len() < usize::MAX as int / 4
        &&& tokens_ids_wf(self.tokens@, self.current_id as int)
    }

    /// What scanning the rest of the source adds after the tokens already
    /// produced.
    pub open spec fn remaining(&self) -> Seq<Result<TokenV, ScannerError>> {
        results_view(self.tokens@) + scan_spec(
            self.source@,
            self.current as int,
            self.line as int,
            self.current_id as int,
        )
    }

    /// A scanner over the characters of `source`, with nothing scanned yet.
    pub fn new(source: &str) -> (r: Self)
        ensures
            r.wf(),
            r.source@ == source@,
            r.tokens@.len() == 0,
            r.current == 0,
            r.line == 0,
            r.current_id == 0,
    {
        Scanner {
            source: chars_vec(source),
            tokens: Vec::new(),
            start: 0,
            current: 0,
            line: 0,
            current_id: 0,
        }
    }

    fn is_at_end(&self) -> (r: bool)
        ensures
            r == (self.current >= self.source@.len()),
    {
        self.current >= self.source.len()
    }

    fn peek(&self) -> (r: Option<char>)
        requires
            self.wf(),
        ensures
            match r {
                Some(c) => self.current < self.source@.len() && c == self.source@[
                    self.current as int
                ],
                None => self.current >= self.source@.len(),
            },
    {
        if self.current < self.source.len() {
            Some(self.source[self.current])
        } else {
            None
        }
    }

    fn peek_next(&self) -> (r: Option<char>)
        requires
            self.wf(),
        ensures
            match r {
                Some(c) => self.current + 1 < self.source@.len() && c == self.source@[
                    self.current as int + 1
                ],
                None => self.current + 1 >= self.source@.len(),
            },
    {
        if self.current + 1 < self.source.len() {
            Some(self.source[self.current + 1])
        } else {
            None
        }
    }

    fn advance(&mut self) -> (r: Option<char>)
        requires
            old(self).wf(),
        ensures
            final(self).wf(),
            final(self).source == old(self).source,
            final(self).tokens == old(self).tokens,
            final(self).start == old(self).start,
            final(self).line == old(self).line,
            final(self).current_id == old(self).current_id,
            r is Some <==> old(self).current < old(self).source@.len(),
            match r {
                Some(c) => final(self).current == old(self).current + 1 && c == old(self).source@[
                    old(self).current as int
                ],
                None => *final(self) == *old(self),
            },
    {
        if self.current < self.source.len() {
            let c = self.source[self.current];
            self.current = self.current + 1;
            Some(c)
        } else {
            None
        }
    }

    /// The characters of the lexeme being scanned, as a string.
    fn current_slice(&self) -> (r: String)
        requires
            self.wf(),
        ensures
            r@ == self.source@.subrange(self.start as int, self.current as int),
    {
        let mut out: Vec<char> = Vec::new();
        let mut i: usize = self.start;
        while i < self.current
            invariant
                self.start <= i <= self.current <= self.source@.len(),
                out@ =~= self.source@.subrange(self.start as int, i as int),
            decreases self.current - i,
        {
            out.push(self.source[i]);
            proof {
                assert(out@ =~= self.source@.subrange(self.start as int, i + 1));
            }
            i = i + 1;
        }
        chars_to_string(&out)
    }

    fn add_literal_token(&mut self, kind: TokenKind, value: LiteralValue)
        requires
            old(self).wf(),
            old(self).current_id < old(self).current,
        ensures
            final(self).wf(),
            final(self).source == old(self).source,
            final(self).start == old(self).start,
            final(self).current == old(self).current,
            final(self).line == old(self).line,
            final(self).current_id == old(self).current_id + 1,
            results_view(final(self).tokens@) =~= results_view(old(self).tokens@).push(
                Ok(
                    tok_at(
                        kind,
                        old(self).source@.subrange(
                            old(self).start as int,
                            old(self).current as int,
                        ),
                        value@,
                        old(self).line as int,
                        old(self).current_id as int + 1,
                    ),
                ),
            ),
    {
        let lexeme = self.current_slice();
        self.current_id = self.current_id + 1;
        let tok = Token {
            kind,
            lexeme,
            literal: value,
            line: self.line,
            id: self.current_id,
        };
        self.tokens.push(Ok(tok));
    }

    fn add_token(&mut self, kind: TokenKind)
        requires
            old(self).wf(),
            old(self).current_id < old(self).current,
        ensures
            final(self).wf(),
            final(self).source == old(self).source,
            final(self).start == old(self).start,
            final(self).current == old(self).current,
            final(self).line == old(self).line,
            final(self).current_id == old(self).current_id + 1,
            results_view(final(self).tokens@) =~= results_view(old(self).tokens@).push(
                Ok(
                    tok_at(
                        kind,
                        old(self).source@.subrange(
                            old(self).start as int,
                            old(self).current as int,
                        ),
                        LiteralV::Absent,
                        old(self).line as int,
                        old(self).current_id as int + 1,
                    ),
                ),
            ),
    {
        self.add_literal_token(kind, LiteralValue::Absent)
    }

    fn add_error(&mut self, err: ScannerError)
        requires
            old(self).wf(),
        ensures
            final(self).wf(),
            final(self).source == old(self).source,
            final(self).start == old(self).start,
            final(self).current == old(self).current,
            final(self).line == old(self).line,
            final(self).current_id == old(self).current_id,
            results_view(final(self).tokens@) =~= results_view(old(self).tokens@).push(Err(err)),
    {
        self.tokens.push(Err(err));
    }

    fn is_digit(c: char) -> (r: bool)
        ensures
            r == is_digit_char(c),
    {
        c >= '0' && c <= '9'
    }

    fn is_identifier_char(c: char) -> (r: bool)
        ensures
            r == is_ident_char(c),
    {
        (c >= 'a' && c <= 'z') || (c >= 'A' && c <= 'Z') || c == '_'
    }

    /// Scan the rest of a string literal (the opening quote stands at
    /// `start`, everything up to `current` is inside the literal).
    fn string(&mut self)
        requires
            old(self).wf(),
            old(self).current_id < old(self).current,
            old(self).start < old(self).current,
        ensures
            final(self).wf(),
            final(self).source == old(self).source,
            final(self).current >= old(self).current,
            final(self).remaining() == results_view(old(self).tokens@) + scan_string_spec(
                old(self).source@,
                old(self).start as int,
                old(self).current as int,
                old(self).line as int,
                old(self).current_id as int,
            ),
        decreases old(self).source@.len() - old(self).current,
    {
        match self.peek() {
            None => {
                self.add_error(ScannerError::UnterminatedString);
            },
            Some(c) => {
                if c == '"' {
                    // the closing quote
                    self.advance();
                    // the text between the quotes
                    let mut inner: Vec<char> = Vec::new();
                    let mut i: usize = self.start + 1;
                    while i < self.current - 1
                        invariant
                            self.start + 1 <= i <= self.current - 1,
                            self.current <= self.source@.len(),
                            inner@ =~= self.source@.subrange(self.start + 1, i as int),
                        decreases self.current - 1 - i,
                    {
                        inner.push(self.source[i]);
                        proof {
                            assert(inner@ =~= self.source@.subrange(self.start + 1, i + 1));
                        }
                        i = i + 1;
                    }
                    proof {
                        assert(inner@ =~= self.source@.subrange(
                            self.start + 1,
                            self.current - 1,
                        ));
                    }
                    let value = chars_to_string(&inner);
                    self.add_literal_token(TokenKind::Literal, LiteralValue::Str(value));
                } else {
                    self.advance();
                    self.string();
                }
            },
        }
    }

    /// Scan the rest of a number literal (its first digit stands at
    /// `start`; every character in between is a digit).
    fn number(&mut self)
        requires
            old(self).wf(),
            old(self).current_id < old(self).current,
            old(self).start < old(self).current,
            forall|k: int|
                old(self).start <= k < old(self).current ==> is_digit_char(
                    #[trigger] old(self).source@[k],
                ),
        ensures
            final(self).wf(),
            final(self).source == old(self).source,
            final(self).current >= old(self).current,
            final(self).remaining() == results_view(old(self).tokens@) + scan_number_spec(
                old(self).source@,
                old(self).start as int,
                old(self).current as int,
                old(self).line as int,
                old(self).current_id as int,
            ),
        decreases old(self).source@.len() - old(self).current,
    {
        let more = match self.peek() {
            Some(c) => Scanner::is_digit(c),
            None => false,
        };
        if more {
            self.advance();
            self.number();
            return ;
        }
        let next_is_digit = match self.peek_next() {
            Some(c) => Scanner::is_digit(c),
            None => false,
        };
        if self.peek() == Some('.') && next_is_digit {
            // a fractional literal: consume it whole, then reject it
            self.advance();
            self.fraction();
            return ;
        }
        // parse the digits
        let ghost digits = self.source@.subrange(self.start as int, self.current as int);
        let mut acc: i64 = 0;
        let mut i: usize = self.start;
        while i < self.current
            invariant
                self.wf(),
                *self == *old(self),
                self.start <= i <= self.current,
                forall|k: int|
                    self.start <= k < self.current ==> is_digit_char(#[trigger] self.source@[k]),
                !(self.current < self.source@.len() && is_digit_char(
                    self.source@[self.current as int],
                )),
                !(self.current + 1 < self.source@.len() && self.source@[self.current as int] == '.'
                    && is_digit_char(self.source@[self.current as int + 1])),
                digits == self.source@.subrange(self.start as int, self.current as int),
                acc == digits_value(digits.take(i - self.start)),
                acc >= 0,
            decreases self.current - i,
        {
            let c = self.source[i];
            let d: i64 = ((c as u32) - 48) as i64;
            proof {
                assert(0 <= d <= 9);
            }
            if acc > (i64::MAX - d) / 10 {
                proof {
                    assert(10 * ((i64::MAX - d) / 10) <= i64::MAX - d) by (nonlinear_arith);
                    assert(acc * 10 >= 10 * ((i64::MAX - d) / 10 + 1)) by (nonlinear_arith)
                        requires
                            acc >= (i64::MAX - d) / 10 + 1,
                    ;
                    assert(digits.take(i - self.start + 1).drop_last() =~= digits.take(
                        i - self.start,
                    ));
                    assert(digits_value(digits.take(i - self.start + 1)) == acc * 10 + d);
                    assert(acc * 10 + d > i64::MAX);
                    assert(forall|k: int|
                        0 <= k < digits.len() ==> is_digit_char(#[trigger] digits[k]));
                    lemma_digits_value_grows(digits, i - self.start + 1, digits.len() as int);
                    assert(digits.take(digits.len() as int) =~= digits);
                    assert(digits_value(digits) > i64::MAX);
                }
                self.add_error(ScannerError::MalformedLiteral);
                proof {
                    let src = old(self).source@;
                    let start = old(self).start as int;
                    let cur = old(self).current as int;
                    assert(!(0 <= cur < src.len() && is_digit_char(src[cur])));
                    assert(src.subrange(start, cur) == digits);
                    assert(digits_value(src.subrange(start, cur)) > i64::MAX);
                    assert(scan_number_spec(
                        old(self).source@,
                        old(self).start as int,
                        old(self).current as int,
                        old(self).line as int,
                        old(self).current_id as int,
                    ) == seq![Err::<TokenV, ScannerError>(ScannerError::MalformedLiteral)]
                        + scan_spec(
                        old(self).source@,
                        old(self).current as int,
                        old(self).line as int,
                        old(self).current_id as int,
                    ));
                    assert(self.remaining() =~= results_view(old(self).tokens@)
                        + scan_number_spec(
                        old(self).source@,
                        old(self).start as int,
                        old(self).current as int,
                        old(self).line as int,
                        old(self).current_id as int,
                    ));
                }
                return ;
            }
            proof {
                assert(10 * ((i64::MAX - d) / 10) <= i64::MAX - d) by (nonlinear_arith);
                assert(acc * 10 <= 10 * ((i64::MAX - d) / 10)) by (nonlinear_arith)
                    requires
                        acc <= (i64::MAX - d) / 10,
                        acc >= 0,
                ;
                assert(digits.take(i - self.start + 1).drop_last() =~= digits.take(
                    i - self.start,
                ));
            }
            acc = acc * 10 + d;
            i = i + 1;
        }
        proof {
            assert(digits.take(digits.len() as int) =~= digits);
        }
        self.add_literal_token(TokenKind::Literal, LiteralValue::Integer(acc));
        proof {
            assert(self.remaining() =~= results_view(old(self).tokens@) + scan_number_spec(
                old(self).source@,
                old(self).start as int,
                old(self).current as int,
                old(self).line as int,
                old(self).current_id as int,
            ));
        }
    }

    /// Consume the fractional tail of a number literal and reject the
    /// literal as malformed.
    fn fraction(&mut self)
        requires
            old(self).wf(),
        ensures
            final(self).wf(),
            final(self).source == old(self).source,
            final(self).current >= old(self).current,
            final(self).remaining() == results_view(old(self).tokens@) + scan_fraction_spec(
                old(self).source@,
                old(self).current as int,
                old(self).line as int,
                old(self).current_id as int,
            ),
        decreases old(self).source@.len() - old(self).current,
    {
        let more = match self.peek() {
            Some(c) => Scanner::is_digit(c),
            None => false,
        };
        if more {
            self.advance();
            self.fraction();
        } else {
            self.add_error(ScannerError::MalformedLiteral);
        }
    }

    /// The keyword a lexeme spells, if it is one.
    fn keyword_kind(lex: &String) -> (r: Option<TokenKind>)
        ensures
            r == keyword_kind_spec(lex@),
    {
        if *lex == "and".to_owned() {
            Some(TokenKind::And)
        } else if *lex == "or".to_owned() {
            Some(TokenKind::Or)
        } else if *lex == "class".to_owned() {
            Some(TokenKind::Class)
        } else if *lex == "if".to_owned() {
            Some(TokenKind::If)
        } else if *lex == "else".to_owned() {
            Some(TokenKind::Else)
        } else if *lex == "true".to_owned() {
            Some(TokenKind::True)
        } else if *lex == "false".to_owned() {
            Some(TokenKind::False)
        } else if *lex == "fn".to_owned() {
            Some(TokenKind::Fn)
        } else if *lex == "for".to_owned() {
            Some(TokenKind::For)
        } else if *lex == "in".to_owned() {
            Some(TokenKind::In)
        } else if *lex == "while".to_owned() {
            Some(TokenKind::While)
        } else if *lex == "nil".to_owned() {
            Some(TokenKind::Nil)
        } else if *lex == "print".to_owned() {
            Some(TokenKind::Print)
        } else if *lex == "return".to_owned() {
            Some(TokenKind::Return)
        } else if *lex == "var".to_owned() {
            Some(TokenKind::Var)
        } else if *lex == "const".to_owned() {
            Some(TokenKind::Const)
        } else if *lex == "this".to_owned() {
            Some(TokenKind::This)
        } else {
            None
        }
    }

    /// Scan the rest of an identifier or keyword (its first character
    /// stands at `start`).
    fn identifier(&mut self)
        requires
            old(self).wf(),
            old(self).current_id < old(self).current,
            old(self).start < old(self).current,
        ensures
            final(self).wf(),
            final(self).source == old(self).source,
            final(self).current >= old(self).current,
            final(self).remaining() == results_view(old(self).tokens@) + scan_ident_spec(
                old(self).source@,
                old(self).start as int,
                old(self).current as int,
                old(self).line as int,
                old(self).current_id as int,
            ),
        decreases old(self).source@.len() - old(self).current,
    {
        let more = match self.peek() {
            Some(c) => Scanner::is_identifier_char(c) || Scanner::is_digit(c),
            None => false,
        };
        if more {
            self.advance();
            self.identifier();
        } else {
            let text = self.current_slice();
            match Scanner::keyword_kind(&text) {
                None => self.add_token(TokenKind::Identifier),
                Some(tk) => self.add_token(tk),
            }
        }
    }

    /// Skip the rest of a line comment.
    fn skip_comment(&mut self)
        requires
            old(self).wf(),
        ensures
            final(self).wf(),
            final(self).source == old(self).source,
            final(self).current >= old(self).current,
            final(self).remaining() == results_view(old(self).tokens@) + scan_comment_spec(
                old(self).source@,
                old(self).current as int,
                old(self).line as int,
                old(self).current_id as int,
            ),
        decreases old(self).source@.len() - old(self).current,
    {
        let skip = match self.peek() {
            Some(c) => c != '\n',
            None => false,
        };
        if skip {
            self.advance();
            self.skip_comment();
        }
    }

    /// Scan one token (or skip whitespace or a comment): afterwards, the
    /// tokens produced plus what scanning the rest yields are exactly what
    /// they were before — the lexing specification, conserved step by step.
    fn scan_token(&mut self)
        requires
            old(self).wf(),
            old(self).current < old(self).source@.len(),
            old(self).start == old(self).current,
        ensures
            final(self).wf(),
            final(self).source == old(self).source,
            final(self).current > old(self).current,
            final(self).remaining() == old(self).remaining(),
    {
        let ghost src = old(self).source@;
        let ghost pos = old(self).current as int;
        let ghost line = old(self).line as int;
        let ghost id = old(self).current_id as int;
        let c = match self.advance() {
            Some(c) => c,
            None => {
                return ;
            },
        };
        match c {
            '(' => {
                self.add_token(TokenKind::LeftParen);
                proof {
                    assert(scan_spec(src, pos, line, id) == scan_one(
                        src,
                        pos,
                        line,
                        id,
                        TokenKind::LeftParen,
                    ));
                    assert(scan_one(src, pos, line, id, TokenKind::LeftParen) == seq![
                        Ok(
                            tok_at(
                                TokenKind::LeftParen,
                                src.subrange(pos, pos + 1),
                                LiteralV::Absent,
                                line,
                                id + 1,
                            ),
                        ),
                    ] + scan_spec(src, pos + 1, line, id + 1));
                    assert(results_view(self.tokens@) =~= results_view(old(self).tokens@).push(
                        Ok(
                            tok_at(
                                TokenKind::LeftParen,
                                src.subrange(pos, pos + 1),
                                LiteralV::Absent,
                                line,
                                id + 1,
                            ),
                        ),
                    ));
                    assert(self.remaining() =~= old(self).remaining());
                }
            },
            ')' => {
                self.add_token(TokenKind::RightParen);
                proof {
                    assert(scan_spec(src, pos, line, id) == scan_one(
                        src,
                        pos,
                        line,
                        id,
                        TokenKind::RightParen,
                    ));
                    assert(scan_one(src, pos, line, id, TokenKind::RightParen) == seq![
                        Ok(
                            tok_at(
                                TokenKind::RightParen,
                                src.subrange(pos, pos + 1),
                                LiteralV::Absent,
                                line,
                                id + 1,
                            ),
                        ),
                    ] + scan_spec(src, pos + 1, line, id + 1));
                    assert(results_view(self.tokens@) =~= results_view(old(self).tokens@).push(
                        Ok(
                            tok_at(
                                TokenKind::RightParen,
                                src.subrange(pos, pos + 1),
                                LiteralV::Absent,
                                line,
                                id + 1,
                            ),
                        ),
                    ));
                    assert(self.remaining() =~= old(self).remaining());
                }
            },
            '[' => {
                self.add_token(TokenKind::LeftBrace);
                proof {
                    assert(scan_spec(src, pos, line, id) == scan_one(
                        src,
                        pos,
                        line,
                        id,
                        TokenKind::LeftBrace,
                    ));
                    assert(scan_one(src, pos, line, id, TokenKind::LeftBrace) == seq![
                        Ok(
                            tok_at(
                                TokenKind::LeftBrace,
                                src.subrange(pos, pos + 1),
                                LiteralV::Absent,
                                line,
                                id + 1,
                            ),
                        ),
                    ] + scan_spec(src, pos + 1, line, id + 1));
                    assert(results_view(self.tokens@) =~= results_view(old(self).tokens@).push(
                        Ok(
                            tok_at(
                                TokenKind::LeftBrace,
                                src.subrange(pos, pos + 1),
                                LiteralV::Absent,
                                line,
                                id + 1,
                            ),
                        ),
                    ));
                    assert(self.remaining() =~= old(self).remaining());
                }
            },
            ']' => {
                self.add_token(TokenKind::RightBrace);
                proof {
                    assert(scan_spec(src, pos, line, id) == scan_one(
                        src,
                        pos,
                        line,
                        id,
                        TokenKind::RightBrace,
                    ));
                    assert(scan_one(src, pos, line, id, TokenKind::RightBrace) == seq![
                        Ok(
                            tok_at(
                                TokenKind::RightBrace,
                                src.subrange(pos, pos + 1),
                                LiteralV::Absent,
                                line,
                                id + 1,
                            ),
                        ),
                    ] + scan_spec(src, pos + 1, line, id + 1));
                    assert(results_view(self.tokens@) =~= results_view(old(self).tokens@).push(
                        Ok(
                            tok_at(
                                TokenKind::RightBrace,
                                src.subrange(pos, pos + 1),
                                LiteralV::Absent,
                                line,
                                id + 1,
                            ),
                        ),
                    ));
                    assert(self.remaining() =~= old(self).remaining());
                }
            },
            '{' => {
                self.add_token(TokenKind::LeftCurly);
                proof {
                    assert(scan_spec(src, pos, line, id) == scan_one(
                        src,
                        pos,
                        line,
                        id,
                        TokenKind::LeftCurly,
                    ));
                    assert(scan_one(src, pos, line, id, TokenKind::LeftCurly) == seq![
                        Ok(
                            tok_at(
                                TokenKind::LeftCurly,
                                src.subrange(pos, pos + 1),
                                LiteralV::Absent,
                                line,
                                id + 1,
                            ),
                        ),
                    ] + scan_spec(src, pos + 1, line, id + 1));
                    assert(results_view(self.tokens@) =~= results_view(old(self).tokens@).push(
                        Ok(
                            tok_at(
                                TokenKind::LeftCurly,
                                src.subrange(pos, pos + 1),
                                LiteralV::Absent,
                                line,
                                id + 1,
                            ),
                        ),
                    ));
                    assert(self.remaining() =~= old(self).remaining());
                }
            },
            '}' => {
                self.add_token(TokenKind::RightCurly);
                proof {
                    assert(scan_spec(src, pos, line, id) == scan_one(
                        src,
                        pos,
                        line,
                        id,
                        TokenKind::RightCurly,
                    ));
                    assert(scan_one(src, pos, line, id, TokenKind::RightCurly) == seq![
                        Ok(
                            tok_at(
                                TokenKind::RightCurly,
                                src.subrange(pos, pos + 1),
                                LiteralV::Absent,
                                line,
                                id + 1,
                            ),
                        ),
                    ] + scan_spec(src, pos + 1, line, id + 1));
                    assert(results_view(self.tokens@) =~= results_view(old(self).tokens@).push(
                        Ok(
                            tok_at(
                                TokenKind::RightCurly,
                                src.subrange(pos, pos + 1),
                                LiteralV::Absent,
                                line,
                                id + 1,
                            ),
                        ),
                    ));
                    assert(self.remaining() =~= old(self).remaining());
                }
            },
            ',' => {
                self.add_token(TokenKind::Comma);
                proof {
                    assert(scan_spec(src, pos, line, id) == scan_one(
                        src,
                        pos,
                        line,
                        id,
                        TokenKind::Comma,
                    ));
                    assert(scan_one(src, pos, line, id, TokenKind::Comma) == seq![
                        Ok(
                            tok_at(
                                TokenKind::Comma,
                                src.subrange(pos, pos + 1),
                                LiteralV::Absent,
                                line,
                                id + 1,
                            ),
                        ),
                    ] + scan_spec(src, pos + 1, line, id + 1));
                    assert(results_view(self.tokens@) =~= results_view(old(self).tokens@).push(
                        Ok(
                            tok_at(
                                TokenKind::Comma,
                                src.subrange(pos, pos + 1),
                                LiteralV::Absent,
                                line,
                                id + 1,
                            ),
                        ),
                    ));
                    assert(self.remaining() =~= old(self).remaining());
                }
            },
            '-' => {
                self.add_token(TokenKind::Minus);
                proof {
                    assert(scan_spec(src, pos, line, id) == scan_one(
                        src,
                        pos,
                        line,
                        id,
                        TokenKind::Minus,
                    ));
                    assert(scan_one(src, pos, line, id, TokenKind::Minus) == seq![
                        Ok(
                            tok_at(
                                TokenKind::Minus,
                                src.subrange(pos, pos + 1),
                                LiteralV::Absent,
                                line,
                                id + 1,
                            ),
                        ),
                    ] + scan_spec(src, pos + 1, line, id + 1));
                    assert(results_view(self.tokens@) =~= results_view(old(self).tokens@).push(
                        Ok(
                            tok_at(
                                TokenKind::Minus,
                                src.subrange(pos, pos + 1),
                                LiteralV::Absent,
                                line,
                                id + 1,
                            ),
                        ),
                    ));
                    assert(self.remaining() =~= old(self).remaining());
                }
            },
            '+' => {
                self.add_token(TokenKind::Plus);
                proof {
                    assert(scan_spec(src, pos, line, id) == scan_one(
                        src,
                        pos,
                        line,
                        id,
                        TokenKind::Plus,
                    ));
                    assert(scan_one(src, pos, line, id, TokenKind::Plus) == seq![
                        Ok(
                            tok_at(
                                TokenKind::Plus,
                                src.subrange(pos, pos + 1),
                                LiteralV::Absent,
                                line,
                                id + 1,
                            ),
                        ),
                    ] + scan_spec(src, pos + 1, line, id + 1));
                    assert(results_view(self.tokens@) =~= results_view(old(self).tokens@).push(
                        Ok(
                            tok_at(
                                TokenKind::Plus,
                                src.subrange(pos, pos + 1),
                                LiteralV::Absent,
                                line,
                                id + 1,
                            ),
                        ),
                    ));
                    assert(self.remaining() =~= old(self).remaining());
                }
            },
            ';' => {
                self.add_token(TokenKind::Semicolon);
                proof {
                    assert(scan_spec(src, pos, line, id) == scan_one(
                        src,
                        pos,
                        line,
                        id,
                        TokenKind::Semicolon,
                    ));
                    assert(scan_one(src, pos, line, id, TokenKind::Semicolon) == seq![
                        Ok(
                            tok_at(
                                TokenKind::Semicolon,
                                src.subrange(pos, pos + 1),
                                LiteralV::Absent,
                                line,
                                id + 1,
                            ),
                        ),
                    ] + scan_spec(src, pos + 1, line, id + 1));
                    assert(results_view(self.tokens@) =~= results_view(old(self).tokens@).push(
                        Ok(
                            tok_at(
                                TokenKind::Semicolon,
                                src.subrange(pos, pos + 1),
                                LiteralV::Absent,
                                line,
                                id + 1,
                            ),
                        ),
                    ));
                    assert(self.remaining() =~= old(self).remaining());
                }
            },
            '*' => {
                self.add_token(TokenKind::Star);
                proof {
                    assert(scan_spec(src, pos, line, id) == scan_one(
                        src,
                        pos,
                        line,
                        id,
                        TokenKind::Star,
                    ));
                    assert(scan_one(src, pos, line, id, TokenKind::Star) == seq![
                        Ok(
                            tok_at(
                                TokenKind::Star,
                                src.subrange(pos, pos + 1),
                                LiteralV::Absent,
                                line,
                                id + 1,
                            ),
                        ),
                    ] + scan_spec(src, pos + 1, line, id + 1));
                    assert(results_view(self.tokens@) =~= results_view(old(self).tokens@).push(
                        Ok(
                            tok_at(
                                TokenKind::Star,
                                src.subrange(pos, pos + 1),
                                LiteralV::Absent,
                                line,
                                id + 1,
                            ),
                        ),
                    ));
                    assert(self.remaining() =~= old(self).remaining());
                }
            },
            '!' => {
                self.lookahead('=', TokenKind::BangEqual, TokenKind::Bang);
                proof {
                    assert(scan_spec(src, pos, line, id) == scan_pair(
                        src,
                        pos,
                        line,
                        id,
                        '=',
                        TokenKind::BangEqual,
                        TokenKind::Bang,
                    ));
                    assert(self.remaining() =~= old(self).remaining());
                }
            },
            '.' => {
                self.lookahead('.', TokenKind::DotDot, TokenKind::Dot);
                proof {
                    assert(scan_spec(src, pos, line, id) == scan_pair(
                        src,
                        pos,
                        line,
                        id,
                        '.',
                        TokenKind::DotDot,
                        TokenKind::Dot,
                    ));
                    assert(self.remaining() =~= old(self).remaining());
                }
            },
            '=' => {
                self.lookahead('=', TokenKind::EqualEqual, TokenKind::Equal);
                proof {
                    assert(scan_spec(src, pos, line, id) == scan_pair(
                        src,
                        pos,
                        line,
                        id,
                        '=',
                        TokenKind::EqualEqual,
                        TokenKind::Equal,
                    ));
                    assert(self.remaining() =~= old(self).remaining());
                }
            },
            '<' => {
                self.lookahead('=', TokenKind::LessEqual, TokenKind::Less);
                proof {
                    assert(scan_spec(src, pos, line, id) == scan_pair(
                        src,
                        pos,
                        line,
                        id,
                        '=',
                        TokenKind::LessEqual,
                        TokenKind::Less,
                    ));
                    assert(self.remaining() =~= old(self).remaining());
                }
            },
            '>' => {
                self.lookahead('=', TokenKind::GreaterEqual, TokenKind::Greater);
                proof {
                    assert(scan_spec(src, pos, line, id) == scan_pair(
                        src,
                        pos,
                        line,
                        id,
                        '=',
                        TokenKind::GreaterEqual,
                        TokenKind::Greater,
                    ));
                    assert(self.remaining() =~= old(self).remaining());
                }
            },
            '/' => {
                let comment = match self.peek() {
                    Some(n) => n == '/',
                    None => false,
                };
                if comment {
                    self.advance();
                    self.skip_comment();
                    proof {
                        assert(scan_spec(src, pos, line, id) == scan_comment_spec(
                            src,
                            pos + 2,
                            line,
                            id,
                        ));
                        assert(self.remaining() =~= old(self).remaining());
                    }
                } else {
                    self.add_token(TokenKind::Slash);
                    proof {
                        assert(scan_spec(src, pos, line, id) == scan_one(
                            src,
                            pos,
                            line,
                            id,
                            TokenKind::Slash,
                        ));
                        assert(scan_one(src, pos, line, id, TokenKind::Slash) == seq![
                            Ok(
                                tok_at(
                                    TokenKind::Slash,
                                    src.subrange(pos, pos + 1),
                                    LiteralV::Absent,
                                    line,
                                    id + 1,
                                ),
                            ),
                        ] + scan_spec(src, pos + 1, line, id + 1));
                        assert(results_view(self.tokens@) =~= results_view(
                            old(self).tokens@,
                        ).push(
                            Ok(
                                tok_at(
                                    TokenKind::Slash,
                                    src.subrange(pos, pos + 1),
                                    LiteralV::Absent,
                                    line,
                                    id + 1,
                                ),
                            ),
                        ));
                        assert(self.remaining() =~= old(self).remaining());
                    }
                }
            },
            ' ' => {
                proof {
                    assert(scan_spec(src, pos, line, id) == scan_spec(src, pos + 1, line, id));
                }
            },
            '\r' => {
                proof {
                    assert(scan_spec(src, pos, line, id) == scan_spec(src, pos + 1, line, id));
                }
            },
            '\t' => {
                proof {
                    assert(scan_spec(src, pos, line, id) == scan_spec(src, pos + 1, line, id));
                }
            },
            '\n' => {
                if self.line < usize::MAX {
                    self.line = self.line + 1;
                }
                proof {
                    assert(scan_spec(src, pos, line, id) == scan_spec(
                        src,
                        pos + 1,
                        next_line(line),
                        id,
                    ));
                    assert(self.line as int == next_line(line));
                    assert(self.remaining() =~= old(self).remaining());
                }
            },
            '"' => {
                self.string();
                proof {
                    assert(scan_spec(src, pos, line, id) == scan_string_spec(
                        src,
                        pos,
                        pos + 1,
                        line,
                        id,
                    ));
                    assert(self.remaining() =~= old(self).remaining());
                }
            },
            _ => {
                if Scanner::is_digit(c) {
                    self.number();
                    proof {
                        assert(scan_spec(src, pos, line, id) == scan_number_spec(
                            src,
                            pos,
                            pos + 1,
                            line,
                            id,
                        ));
                        assert(self.remaining() =~= old(self).remaining());
                    }
                } else if Scanner::is_identifier_char(c) {
                    self.identifier();
                    proof {
                        assert(scan_spec(src, pos, line, id) == scan_ident_spec(
                            src,
                            pos,
                            pos + 1,
                            line,
                            id,
                        ));
                        assert(self.remaining() =~= old(self).remaining());
                    }
                } else {
                    self.add_error(ScannerError::UnexpectedToken);
                    proof {
                        assert(scan_spec(src, pos, line, id) == seq![
                            Err::<TokenV, ScannerError>(ScannerError::UnexpectedToken),
                        ] + scan_spec(src, pos + 1, line, id));
                        assert(results_view(self.tokens@) =~= results_view(
                            old(self).tokens@,
                        ).push(Err(ScannerError::UnexpectedToken)));
                        assert(self.remaining() =~= old(self).remaining());
                    }
                }
            },
        }
    }

    /// A one-or-two-character token: `two` when the next character is
    /// `follow`, else `one`.
    fn lookahead(&mut self, follow: char, two: TokenKind, one: TokenKind)
        requires
            old(self).wf(),
            old(self).current_id < old(self).current,
            old(self).start == old(self).current - 1,
        ensures
            final(self).wf(),
            final(self).source == old(self).source,
            final(self).current >= old(self).current,
            final(self).remaining() == results_view(old(self).tokens@) + scan_pair(
                old(self).source@,
                old(self).start as int,
                old(self).line as int,
                old(self).current_id as int,
                follow,
                two,
                one,
            ),
    {
        let matched = match self.peek() {
            Some(c) => c == follow,
            None => false,
        };
        if matched {
            self.advance();
            self.add_token(two);
        } else {
            self.add_token(one);
        }
    }

    /// Scan the whole source: the result is exactly what the lexing
    /// specification says for the source text, ending with the single
    /// end-of-input token; token ids are strictly increasing.
    pub fn scan_tokens(self) -> (tokens: Vec<Result<Token, ScannerError>>)
        requires
            self.wf(),
        ensures
            results_view(tokens@) == self.remaining(),
            tokens@.len() >= 1,
            tokens@.last() is Ok && tokens@.last().unwrap().kind == TokenKind::Eof,
            forall|i: int, j: int|
                0 <= i < j < tokens@.len() && tokens@[i] is Ok && tokens@[j] is Ok
                    ==> (#[trigger] tokens@[i]).unwrap().id < (#[trigger] tokens@[j]).unwrap().id,
    {
        let ghost goal = self.remaining();
        let mut sc = self;
        while !sc.is_at_end()
            invariant
                sc.wf(),
                sc.remaining() == goal,
            decreases sc.source@.len() - sc.current,
        {
            sc.start = sc.current;
            sc.scan_token();
        }
        let ghost pre = sc.tokens@;
        let ghost bound = sc.current_id as int;
        sc.current_id = sc.current_id + 1;
        let eof = Token {
            kind: TokenKind::Eof,
            lexeme: String::new(),
            literal: LiteralValue::Absent,
            line: sc.line,
            id: sc.current_id,
        };
        sc.tokens.push(Ok(eof));
        proof {
            assert(results_view(sc.tokens@) =~= goal);
            let ts = sc.tokens@;
            assert(ts.last() is Ok && ts.last().unwrap().kind == TokenKind::Eof);
            assert(ts.last().unwrap().id == bound + 1);
            assert forall|i: int, j: int|
                0 <= i < j < ts.len() && ts[i] is Ok && ts[j] is Ok implies (
            #[trigger] ts[i]).unwrap().id < (#[trigger] ts[j]).unwrap().id by {
                if j == ts.len() - 1 {
                    assert(ts[i] == pre[i]);
                    assert(pre[i].unwrap().id <= bound);
                } else {
                    assert(ts[i] == pre[i] && ts[j] == pre[j]);
                }
            }
        }
        sc.tokens
    }
}

/// Token ids in the list are strictly increasing and bounded by the id
/// counter.
pub open spec fn tokens_ids_wf(ts: Seq<Result<Token, ScannerError>>, bound: int) -> bool {
    &&& forall|i: int, j: int|
        0 <= i < j < ts.len() && ts[i] is Ok && ts[j] is Ok ==> (#[trigger] ts[i]).unwrap().id < (
        #[trigger] ts[j]).unwrap().id
    &&& forall|i: int| 0 <= i < ts.len() && ts[i] is Ok ==> (#[trigger] ts[i]).unwrap().id <= bound
}

} // verus!
