//! The scanners: one for each kind of literal, comment and mark, the
//! dispatcher that picks among them, and the driver that runs it to the end
//! of the text.

use vstd::prelude::*;
use crate::grammar::{
    all_digits_of, block_close, closes_block, cursor_after, end_index, end_of_input, find_char,
    identifier_end, is_digit, is_digit_of, is_float_body, is_identifier_part, is_number_part,
    lemma_lexed_is_no_end, lemma_skip_blanks, lemma_token_advances, lex_annotation,
    lex_block_comment, lex_character, lex_identifier, lex_line_comment, lex_number, lex_operator,
    lex_string, number_end, number_kind, operator_of, placed, single_mark, skip_blanks,
    string_body, token_at, tokens_from, without_cr,
};
use crate::util::ApolloError;
use crate::laws::{lemma_ends_with_one_eof, lemma_eof_position};
use crate::lexer::Lexer;
use crate::position::char_at;
use crate::token::{segments_of, LexerToken, TokenType, TokenView};

verus! {

/// Whether `run` holds a dot.
fn has_dot(run: &[char]) -> (found: bool)
    ensures
        found == run@.contains('.'),
{
    let mut i: usize = 0;
    while i < run.len()
        invariant
            i <= run.len(),
            forall|j: int| 0 <= j < i ==> run@[j] != '.',
        decreases run.len() - i,
    {
        if run[i] == '.' {
            return true;
        }
        i += 1;
    }
    false
}

/// Whether `c` is a digit of the radix that `kind` stands for.
fn digit_of(kind: TokenType, c: char) -> (r: bool)
    ensures
        r == is_digit_of(kind, c),
{
    match kind {
        TokenType::HEXADECIMAL => Lexer::is_hexadecimal_digit(c),
        TokenType::OCTAL => Lexer::is_octal_digit(c),
        TokenType::BINARY => Lexer::is_binary_digit(c),
        _ => c >= '0' && c <= '9',
    }
}

/// Whether the characters of `run` from index 2 on are digits of the radix
/// of `kind`.
fn digits_follow(kind: TokenType, run: &[char]) -> (r: bool)
    requires
        run@.len() >= 2,
    ensures
        r == all_digits_of(kind, run@.skip(2)),
{
    let mut i: usize = 2;
    while i < run.len()
        invariant
            2 <= i <= run.len(),
            forall|j: int| 0 <= j < i - 2 ==> is_digit_of(kind, #[trigger] run@.skip(2)[j]),
        decreases run.len() - i,
    {
        if !digit_of(kind, run[i]) {
            assert(!is_digit_of(kind, run@.skip(2)[i - 2]));
            return false;
        }
        i += 1;
    }
    true
}

/// Whether `run` without its last character is digits with at most one dot.
fn float_body(run: &[char]) -> (r: bool)
    requires
        run@.len() >= 1,
    ensures
        r == is_float_body(run@.drop_last()),
{
    let ghost body = run@.drop_last();
    let mut dotted = false;
    let mut i: usize = 0;
    while i < run.len() - 1
        invariant
            i <= run.len() - 1,
            body == run@.drop_last(),
            forall|j: int| 0 <= j < i ==> is_digit(#[trigger] body[j]) || body[j] == '.',
            forall|j: int, k: int|
                0 <= j < k < i ==> !(#[trigger] body[j] == '.' && #[trigger] body[k] == '.'),
            dotted == exists|j: int| 0 <= j < i && #[trigger] body[j] == '.',
        decreases run.len() - i,
    {
        let c = run[i];
        assert(c == body[i as int]);
        if c == '.' {
            if dotted {
                return false;
            }
            dotted = true;
        } else if !(c >= '0' && c <= '9') {
            return false;
        }
        i += 1;
    }
    true
}

/// Decides the kind of the numeric literal `run`.
pub fn classify_number(run: &[char]) -> (kind: TokenType)
    ensures
        kind == number_kind(run@),
{
    let n = run.len();
    if n >= 2 && run[0] == '0' && !has_dot(run) {
        let marker = run[1];
        if marker == 'x' {
            return if digits_follow(TokenType::HEXADECIMAL, run) {
                TokenType::HEXADECIMAL
            } else {
                TokenType::ERROR
            };
        } else if marker == 'o' {
            return if digits_follow(TokenType::OCTAL, run) {
                TokenType::OCTAL
            } else {
                TokenType::ERROR
            };
        } else if marker == 'b' {
            return if digits_follow(TokenType::BINARY, run) {
                TokenType::BINARY
            } else {
                TokenType::ERROR
            };
        }
    }
    if n > 0 && run[n - 1] == 'f' {
        if float_body(run) {
            TokenType::FLOAT
        } else {
            TokenType::ERROR
        }
    } else {
        TokenType::NUMBER
    }
}

/// A token that sets nothing aside.
fn plain_token(kind: TokenType, value: String, line: usize, column: usize) -> (token: LexerToken)
    ensures
        token@ == (TokenView {
            kind,
            lexeme: value@,
            metadata: Seq::empty(),
            line: line as nat,
            column: column as nat,
        }),
{
    let token = LexerToken { token_type: kind, value, metadata: Vec::new(), line, column };
    assert(segments_of(token.metadata@) =~= Seq::<Seq<char>>::empty());
    token
}

/// Whether a numeric literal goes on over `c`.
fn is_number_char(c: char) -> (r: bool)
    ensures
        r == is_number_part(c),
{
    (c >= '0' && c <= '9') || (c >= 'a' && c <= 'z') || (c >= 'A' && c <= 'Z') || c == '.'
}

/// Whether an identifier goes on over `c`, given whether `c` is
/// alphanumeric.
pub fn continues_identifier(c: char, alphanumeric: bool) -> (r: bool)
    ensures
        r == (alphanumeric || c == '_'),
{
    alphanumeric || c == '_'
}

/// Whether an identifier goes on over `c`.
fn is_identifier_char(c: char) -> (r: bool)
    ensures
        r == is_identifier_part(c),
{
    continues_identifier(c, c.is_alphanumeric())
}

/// The kind of a mark that is one character whatever follows it.
fn single_mark_kind(c: char) -> (kind: TokenType)
    ensures
        kind == single_mark(c),
{
    if c == '@' {
        TokenType::ATSIGN
    } else if c == '#' {
        TokenType::HASH
    } else if c == '~' {
        TokenType::SQUIGGLE
    } else if c == '?' {
        TokenType::QUESTION
    } else if c == ';' {
        TokenType::SEMICOLON
    } else if c == ',' {
        TokenType::COMMA
    } else if c == ':' {
        TokenType::COLON
    } else if c == '.' {
        TokenType::DOT
    } else if c == '(' {
        TokenType::LEFTPAREN
    } else if c == ')' {
        TokenType::RIGHTPAREN
    } else if c == '{' {
        TokenType::LEFTBRACE
    } else if c == '}' {
        TokenType::RIGHTBRACE
    } else if c == '[' {
        TokenType::LEFTBRACKET
    } else if c == ']' {
        TokenType::RIGHTBRACKET
    } else {
        TokenType::UNKNOWN
    }
}

/// Whether `found` is the character `wanted`.
fn is_char(found: Option<char>, wanted: char) -> (r: bool)
    ensures
        r == (found == Some(wanted)),
{
    match found {
        Some(c) => c == wanted,
        None => false,
    }
}

/// Decides the operator or punctuation mark that starts with `c`, given the
/// two characters after it, and how many characters it takes.
pub fn operator_kind(c: char, next: Option<char>, after: Option<char>) -> (mark: (TokenType, usize))
    ensures
        mark.0 == operator_of(c, next, after).0,
        mark.1 == operator_of(c, next, after).1,
        1 <= mark.1 <= 3,
        mark.1 >= 2 ==> next is Some,
        mark.1 >= 3 ==> after is Some,
{
    if c == '<' {
        if is_char(next, '=') {
            (TokenType::LESSEQL, 2)
        } else if is_char(next, '<') {
            if is_char(after, '=') {
                (TokenType::LEFTSHIFTASSIGN, 3)
            } else {
                (TokenType::LEFTSHIFT, 2)
            }
        } else {
            (TokenType::LESS, 1)
        }
    } else if c == '>' {
        if is_char(next, '=') {
            (TokenType::GREATEREQL, 2)
        } else if is_char(next, '>') {
            if is_char(after, '=') {
                (TokenType::RIGHTSHIFTASSIGN, 3)
            } else {
                (TokenType::RIGHTSHIFT, 2)
            }
        } else {
            (TokenType::GREATER, 1)
        }
    } else if c == '+' {
        if is_char(next, '+') {
            (TokenType::INCREMENT, 2)
        } else if is_char(next, '=') {
            (TokenType::ADDASSIGN, 2)
        } else {
            (TokenType::PLUS, 1)
        }
    } else if c == '-' {
        if is_char(next, '-') {
            (TokenType::DECREMENT, 2)
        } else if is_char(next, '>') {
            (TokenType::RIGHTARROW, 2)
        } else if is_char(next, '=') {
            (TokenType::SUBASSIGN, 2)
        } else {
            (TokenType::MINUS, 1)
        }
    } else if c == '=' {
        if is_char(next, '=') {
            (TokenType::EQL, 2)
        } else if is_char(next, '>') {
            (TokenType::LAMBDA, 2)
        } else {
            (TokenType::ASSIGN, 1)
        }
    } else if c == '/' {
        if is_char(next, '=') {
            (TokenType::DIVASSIGN, 2)
        } else {
            (TokenType::DIVIDE, 1)
        }
    } else if c == '*' {
        if is_char(next, '=') {
            (TokenType::STARASSIGN, 2)
        } else {
            (TokenType::STAR, 1)
        }
    } else if c == '!' {
        if is_char(next, '=') {
            (TokenType::BANGASSIGN, 2)
        } else {
            (TokenType::BANG, 1)
        }
    } else if c == '^' {
        if is_char(next, '=') {
            (TokenType::CARROTASSIGN, 2)
        } else {
            (TokenType::CARROT, 1)
        }
    } else if c == '|' {
        if is_char(next, '=') {
            (TokenType::BITORASSIGN, 2)
        } else if is_char(next, '|') {
            (TokenType::BOOLOR, 2)
        } else {
            (TokenType::BAR, 1)
        }
    } else if c == '&' {
        if is_char(next, '=') {
            (TokenType::BITANDASSIGN, 2)
        } else if is_char(next, '&') {
            (TokenType::BOOLAND, 2)
        } else {
            (TokenType::AMPERSAND, 1)
        }
    } else if c == '%' {
        if is_char(next, '=') {
            (TokenType::MODASSIGN, 2)
        } else {
            (TokenType::PERCENT, 1)
        }
    } else {
        (single_mark_kind(c), 1)
    }
}

impl Lexer {
    /// Takes the current character into `text` and moves on.
    fn take(&mut self, text: &mut String)
        requires
            old(self).wf(),
            char_at(old(self).source(), old(self).cursor()) is Some,
        ensures
            final(self).wf(),
            final(self).source() == old(self).source(),
            final(self).verbosity() == old(self).verbosity(),
            final(self).cursor() == old(self).cursor() + 1,
            final(text)@ == old(text)@.push(old(self).source()[old(self).cursor()]),
    {
        proof {
            self.lemma_cursor_bounds();
        }
        match self.current_char() {
            Some(c) => {
                text.push(c);
            },
            None => {},
        }
        self.read_char();
    }

    /// Scans the numeric literal that starts at the cursor.
    fn parse_number(&mut self) -> (token: LexerToken)
        requires
            old(self).wf(),
            char_at(old(self).source(), old(self).cursor()) is Some,
        ensures
            final(self).wf(),
            final(self).source() == old(self).source(),
            final(self).verbosity() == old(self).verbosity(),
            token@ == placed(
                lex_number(old(self).source(), old(self).cursor()),
                old(self).source(),
                old(self).cursor(),
            ),
            final(self).cursor() == lex_number(old(self).source(), old(self).cursor()).end,
    {
        let ghost src = self.source();
        let ghost first = self.cursor();
        let line = self.line();
        let column = self.column();
        let start = self.position();
        let mut value = String::new();
        let mut c = self.current_char();
        while c.is_some() && is_number_char(c.unwrap())
            invariant
                self.wf(),
                self.source() == src,
                self.verbosity() == old(self).verbosity(),
                0 <= first <= self.cursor() <= src.len(),
                c == char_at(src, self.cursor()),
                value@ == src.subrange(first, self.cursor()),
                number_end(src, self.cursor()) == number_end(src, first),
            decreases src.len() - self.cursor(),
        {
            self.take(&mut value);
            assert(value@ =~= src.subrange(first, self.cursor()));
            c = self.current_char();
        }
        let end = self.position();
        let kind = classify_number(self.slice(start, end));
        plain_token(kind, value, line, column)
    }

    /// Scans the identifier that starts at the cursor.
    fn parse_identifier(&mut self) -> (token: LexerToken)
        requires
            old(self).wf(),
            char_at(old(self).source(), old(self).cursor()) is Some,
        ensures
            final(self).wf(),
            final(self).source() == old(self).source(),
            final(self).verbosity() == old(self).verbosity(),
            token@ == placed(
                lex_identifier(old(self).source(), old(self).cursor()),
                old(self).source(),
                old(self).cursor(),
            ),
            final(self).cursor() == lex_identifier(old(self).source(), old(self).cursor()).end,
    {
        let ghost src = self.source();
        let ghost first = self.cursor();
        let line = self.line();
        let column = self.column();
        let mut value = String::new();
        self.take(&mut value);
        assert(value@ =~= src.subrange(first, self.cursor()));
        let mut c = self.current_char();
        while c.is_some() && is_identifier_char(c.unwrap())
            invariant
                self.wf(),
                self.source() == src,
                self.verbosity() == old(self).verbosity(),
                0 <= first < self.cursor() <= src.len(),
                c == char_at(src, self.cursor()),
                value@ == src.subrange(first, self.cursor()),
                identifier_end(src, self.cursor()) == identifier_end(src, first + 1),
            decreases src.len() - self.cursor(),
        {
            self.take(&mut value);
            assert(value@ =~= src.subrange(first, self.cursor()));
            c = self.current_char();
        }
        plain_token(TokenType::IDENTIFIER, value, line, column)
    }

    /// Scans the string literal whose opening quote is at the cursor.
    fn parse_string(&mut self) -> (token: LexerToken)
        requires
            old(self).wf(),
            char_at(old(self).source(), old(self).cursor()) is Some,
        ensures
            final(self).wf(),
            final(self).source() == old(self).source(),
            final(self).verbosity() == old(self).verbosity(),
            token@ == placed(
                lex_string(old(self).source(), old(self).cursor()),
                old(self).source(),
                old(self).cursor(),
            ),
            final(self).cursor() == lex_string(old(self).source(), old(self).cursor()).end,
    {
        let ghost src = self.source();
        let ghost first = self.cursor();
        let ghost whole = string_body(src, first + 1);
        let line = self.line();
        let column = self.column();
        proof {
            self.lemma_cursor_bounds();
        }
        self.read_char();
        let mut value = String::new();
        let mut metadata: Vec<Vec<char>> = Vec::new();
        let mut done = false;
        assert(segments_of(metadata@) =~= Seq::<Seq<char>>::empty());
        while !done
            invariant
                self.wf(),
                self.source() == src,
                self.verbosity() == old(self).verbosity(),
                0 <= first < self.cursor() <= src.len(),
                whole == string_body(src, first + 1),
                !done ==> value@ + string_body(src, self.cursor()).lexeme == whole.lexeme,
                !done ==> segments_of(metadata@) + string_body(src, self.cursor()).metadata
                    == whole.metadata,
                !done ==> string_body(src, self.cursor()).end == whole.end,
                done ==> value@ == whole.lexeme,
                done ==> segments_of(metadata@) == whole.metadata,
                done ==> self.cursor() == whole.end,
            decreases src.len() - self.cursor() + if done {
                0int
            } else {
                1int
            },
        {
            let ghost at = self.cursor();
            let ghost text = value@;
            let ghost segments = segments_of(metadata@);
            let ghost rest = string_body(src, at);
            proof {
                self.lemma_cursor_bounds();
            }
            match self.current_char() {
                None => {
                    done = true;
                    assert(value@ =~= value@ + rest.lexeme);
                    assert(segments =~= segments + rest.metadata);
                },
                Some(c) => {
                    if c == '"' {
                        self.read_char();
                        done = true;
                        assert(value@ =~= value@ + rest.lexeme);
                        assert(segments =~= segments + rest.metadata);
                    } else if c == '{' {
                        self.take(&mut value);
                        let mut inner: Vec<char> = Vec::new();
                        let mut d = self.current_char();
                        while d.is_some() && d.unwrap() != '}'
                            invariant
                                self.wf(),
                                self.source() == src,
                                self.verbosity() == old(self).verbosity(),
                                0 <= at < self.cursor() <= src.len(),
                                d == char_at(src, self.cursor()),
                                inner@ == src.subrange(at + 1, self.cursor()),
                                find_char(src, self.cursor(), '}') == find_char(src, at + 1, '}'),
                            decreases src.len() - self.cursor(),
                        {
                            proof {
                                self.lemma_cursor_bounds();
                            }
                            inner.push(d.unwrap());
                            self.read_char();
                            assert(inner@ =~= src.subrange(at + 1, self.cursor()));
                            d = self.current_char();
                        }
                        let ghost close = self.cursor();
                        assert(close == find_char(src, at + 1, '}'));
                        if d.is_some() {
                            self.take(&mut value);
                        }
                        let ghost segment = inner@;
                        metadata.push(inner);
                        proof {
                            assert(segments_of(metadata@) =~= segments.push(segment));
                            if close < src.len() {
                                let after = string_body(src, close + 1);
                                assert(value@ =~= text + seq!['{', '}']);
                                assert(value@ + after.lexeme =~= text + (seq!['{', '}']
                                    + after.lexeme));
                                assert(segments.push(segment) + after.metadata =~= segments
                                    + (seq![segment] + after.metadata));
                            } else {
                                let after = string_body(src, close);
                                assert(value@ =~= text + seq!['{']);
                                assert(value@ + after.lexeme =~= text + seq!['{']);
                                assert(segments.push(segment) + after.metadata =~= segments
                                    + seq![segment]);
                            }
                        }
                    } else {
                        self.take(&mut value);
                        proof {
                            let after = string_body(src, at + 1);
                            assert(value@ + after.lexeme =~= text + (seq![c] + after.lexeme));
                        }
                    }
                },
            }
        }
        LexerToken { token_type: TokenType::STRING, value, metadata, line, column }
    }

    /// Scans the character literal whose opening quote is at the cursor.
    fn parse_character(&mut self) -> (token: LexerToken)
        requires
            old(self).wf(),
            char_at(old(self).source(), old(self).cursor()) is Some,
            old(self).source()[old(self).cursor()] == '\'',
        ensures
            final(self).wf(),
            final(self).source() == old(self).source(),
            final(self).verbosity() == old(self).verbosity(),
            token@ == placed(
                lex_character(old(self).source(), old(self).cursor()),
                old(self).source(),
                old(self).cursor(),
            ),
            final(self).cursor() == lex_character(old(self).source(), old(self).cursor()).end,
    {
        let ghost src = self.source();
        let ghost first = self.cursor();
        let line = self.line();
        let column = self.column();
        proof {
            self.lemma_cursor_bounds();
        }
        self.read_char();
        let escaped = match self.current_char() {
            Some(c) => c == '\\',
            None => false,
        };
        let mut value = String::new();
        let mut count: usize = 0;
        let mut c = self.current_char();
        while c.is_some() && c.unwrap() != '\''
            invariant
                self.wf(),
                self.source() == src,
                self.verbosity() == old(self).verbosity(),
                0 <= first < self.cursor() <= src.len(),
                c == char_at(src, self.cursor()),
                value@ == src.subrange(first + 1, self.cursor()),
                count == self.cursor() - (first + 1),
                find_char(src, self.cursor(), '\'') == find_char(src, first + 1, '\''),
            decreases src.len() - self.cursor(),
        {
            proof {
                self.lemma_cursor_bounds();
            }
            self.take(&mut value);
            count += 1;
            assert(value@ =~= src.subrange(first + 1, self.cursor()));
            c = self.current_char();
        }
        let closed = c.is_some();
        if closed {
            proof {
                self.lemma_cursor_bounds();
            }
            self.read_char();
        }
        if !escaped && count != 1 {
            let mut raw = String::new();
            raw.push('\'');
            raw.append(value.as_str());
            if closed {
                raw.push('\'');
            }
            assert(raw@ =~= src.subrange(first, self.cursor()));
            plain_token(TokenType::ERROR, raw, line, column)
        } else {
            plain_token(TokenType::CHARACTER, value, line, column)
        }
    }

    /// Scans the line comment whose `//` is at the cursor.
    fn parse_line_comment(&mut self) -> (token: LexerToken)
        requires
            old(self).wf(),
            char_at(old(self).source(), old(self).cursor()) is Some,
            char_at(old(self).source(), old(self).cursor() + 1) is Some,
        ensures
            final(self).wf(),
            final(self).source() == old(self).source(),
            final(self).verbosity() == old(self).verbosity(),
            token@ == placed(
                lex_line_comment(old(self).source(), old(self).cursor()),
                old(self).source(),
                old(self).cursor(),
            ),
            final(self).cursor() == lex_line_comment(old(self).source(), old(self).cursor()).end,
    {
        let ghost src = self.source();
        let ghost first = self.cursor();
        let line = self.line();
        let column = self.column();
        proof {
            self.lemma_cursor_bounds();
        }
        self.read_char();
        self.read_char();
        let mut value = String::new();
        let mut c = self.current_char();
        assert(src.subrange(first + 2, self.cursor()) =~= Seq::<char>::empty());
        while c.is_some() && c.unwrap() != '\n'
            invariant
                self.wf(),
                self.source() == src,
                self.verbosity() == old(self).verbosity(),
                0 <= first + 2 <= self.cursor() <= src.len(),
                c == char_at(src, self.cursor()),
                value@ == without_cr(src.subrange(first + 2, self.cursor())),
                find_char(src, self.cursor(), '\n') == find_char(src, first + 2, '\n'),
            decreases src.len() - self.cursor(),
        {
            let ghost at = self.cursor();
            proof {
                self.lemma_cursor_bounds();
                assert(src.subrange(first + 2, at + 1).drop_last() =~= src.subrange(first + 2, at));
            }
            if c.unwrap() != '\r' {
                value.push(c.unwrap());
            }
            self.read_char();
            c = self.current_char();
        }
        if c.is_some() {
            proof {
                self.lemma_cursor_bounds();
            }
            self.read_char();
        }
        plain_token(TokenType::LINECOMMENT, value, line, column)
    }

    /// Scans the block comment whose `/*` is at the cursor.
    fn parse_block_comment(&mut self) -> (token: LexerToken)
        requires
            old(self).wf(),
            char_at(old(self).source(), old(self).cursor()) is Some,
            char_at(old(self).source(), old(self).cursor() + 1) is Some,
        ensures
            final(self).wf(),
            final(self).source() == old(self).source(),
            final(self).verbosity() == old(self).verbosity(),
            token@ == placed(
                lex_block_comment(old(self).source(), old(self).cursor()),
                old(self).source(),
                old(self).cursor(),
            ),
            final(self).cursor() == lex_block_comment(old(self).source(), old(self).cursor()).end,
    {
        let ghost src = self.source();
        let ghost first = self.cursor();
        let line = self.line();
        let column = self.column();
        proof {
            self.lemma_cursor_bounds();
        }
        self.read_char();
        self.read_char();
        let mut value = String::new();
        let mut open = self.in_block_comment();
        assert(src.subrange(first + 2, self.cursor()) =~= Seq::<char>::empty());
        while open
            invariant
                self.wf(),
                self.source() == src,
                self.verbosity() == old(self).verbosity(),
                0 <= first + 2 <= self.cursor() <= src.len(),
                open == (self.cursor() < src.len() && !closes_block(src, self.cursor())),
                value@ == src.subrange(first + 2, self.cursor()),
                block_close(src, self.cursor()) == block_close(src, first + 2),
            decreases src.len() - self.cursor(),
        {
            self.take(&mut value);
            assert(value@ =~= src.subrange(first + 2, self.cursor()));
            open = self.in_block_comment();
        }
        if self.current_char().is_some() {
            proof {
                self.lemma_cursor_bounds();
            }
            self.read_char();
            self.read_char();
        }
        plain_token(TokenType::BLOCKCOMMENT, value, line, column)
    }

    /// Whether the cursor is on a character of a block comment: inside the
    /// text and not on the `*/` that closes the comment.
    fn in_block_comment(&self) -> (open: bool)
        requires
            self.wf(),
        ensures
            open == (char_at(self.source(), self.cursor()) is Some && !closes_block(
                self.source(),
                self.cursor(),
            )),
    {
        match self.current_char() {
            None => false,
            Some(c) => {
                if c == '*' {
                    match self.peek_char() {
                        Some(d) => d != '/',
                        None => true,
                    }
                } else {
                    true
                }
            },
        }
    }

    /// Scans the annotation whose `#[` is at the cursor.
    fn parse_annotation(&mut self) -> (token: LexerToken)
        requires
            old(self).wf(),
            char_at(old(self).source(), old(self).cursor()) is Some,
            char_at(old(self).source(), old(self).cursor() + 1) is Some,
        ensures
            final(self).wf(),
            final(self).source() == old(self).source(),
            final(self).verbosity() == old(self).verbosity(),
            token@ == placed(
                lex_annotation(old(self).source(), old(self).cursor()),
                old(self).source(),
                old(self).cursor(),
            ),
            final(self).cursor() == lex_annotation(old(self).source(), old(self).cursor()).end,
    {
        let ghost src = self.source();
        let ghost first = self.cursor();
        let line = self.line();
        let column = self.column();
        proof {
            self.lemma_cursor_bounds();
        }
        self.read_char();
        self.read_char();
        let mut body: Vec<char> = Vec::new();
        let mut c = self.current_char();
        assert(src.subrange(first + 2, self.cursor()) =~= Seq::<char>::empty());
        while c.is_some() && c.unwrap() != ']'
            invariant
                self.wf(),
                self.source() == src,
                self.verbosity() == old(self).verbosity(),
                0 <= first + 2 <= self.cursor() <= src.len(),
                c == char_at(src, self.cursor()),
                body@ == src.subrange(first + 2, self.cursor()),
                find_char(src, self.cursor(), ']') == find_char(src, first + 2, ']'),
            decreases src.len() - self.cursor(),
        {
            proof {
                self.lemma_cursor_bounds();
            }
            body.push(c.unwrap());
            self.read_char();
            assert(body@ =~= src.subrange(first + 2, self.cursor()));
            c = self.current_char();
        }
        if c.is_some() {
            proof {
                self.lemma_cursor_bounds();
            }
            self.read_char();
        }
        let ghost segment = body@;
        let mut metadata: Vec<Vec<char>> = Vec::new();
        metadata.push(body);
        assert(segments_of(metadata@) =~= seq![segment]);
        LexerToken {
            token_type: TokenType::ANNOTATION,
            value: "#[{}]".to_owned(),
            metadata,
            line,
            column,
        }
    }

    /// Scans the operator or punctuation mark at the cursor.
    fn parse_operator(&mut self) -> (token: LexerToken)
        requires
            old(self).wf(),
            char_at(old(self).source(), old(self).cursor()) is Some,
        ensures
            final(self).wf(),
            final(self).source() == old(self).source(),
            final(self).verbosity() == old(self).verbosity(),
            token@ == placed(
                lex_operator(old(self).source(), old(self).cursor()),
                old(self).source(),
                old(self).cursor(),
            ),
            final(self).cursor() == lex_operator(old(self).source(), old(self).cursor()).end,
    {
        let ghost src = self.source();
        let ghost first = self.cursor();
        let line = self.line();
        let column = self.column();
        let c = match self.current_char() {
            Some(c) => c,
            None => ' ',
        };
        let next = self.peek_char();
        let mut value = String::new();
        self.take(&mut value);
        let after = self.peek_char();
        let (kind, width) = operator_kind(c, next, after);
        if width >= 2 {
            self.take(&mut value);
        }
        if width >= 3 {
            self.take(&mut value);
        }
        assert(value@ =~= src.subrange(first, first + width));
        plain_token(kind, value, line, column)
    }

    /// Produces the next token and moves the cursor past it.
    ///
    /// Blanks before the token are passed over. At the end of the text the
    /// token marks the end of input and the cursor stays, so that a further
    /// call gives the same token again.
    pub fn next_token(&mut self) -> (produced: Option<LexerToken>)
        requires
            old(self).wf(),
        ensures
            final(self).wf(),
            final(self).source() == old(self).source(),
            final(self).verbosity() == old(self).verbosity(),
            produced is Some,
            produced->0@ == token_at(old(self).source(), old(self).cursor()),
            final(self).cursor() == cursor_after(old(self).source(), old(self).cursor()),
    {
        let ghost src = self.source();
        let ghost pos = self.cursor();
        let mut current = self.current_char();
        while current.is_some() && Self::is_whitespace(current.unwrap())
            invariant
                self.wf(),
                self.source() == src,
                self.verbosity() == old(self).verbosity(),
                current == char_at(src, self.cursor()),
                skip_blanks(src, self.cursor()) == skip_blanks(src, pos),
            decreases src.len() - self.cursor(),
        {
            proof {
                self.lemma_cursor_bounds();
            }
            self.read_char();
            current = self.current_char();
        }
        assert(self.cursor() == skip_blanks(src, pos));
        match current {
            None => {
                let line = self.line();
                let column = self.column();
                Some(plain_token(TokenType::EOF, String::new(), line, column))
            },
            Some(c) => {
                let next = self.peek_char();
                let token = if c >= '0' && c <= '9' {
                    self.parse_number()
                } else if (c >= 'a' && c <= 'z') || (c >= 'A' && c <= 'Z') || c == '_' {
                    self.parse_identifier()
                } else if c == '"' {
                    self.parse_string()
                } else if c == '\'' {
                    self.parse_character()
                } else if c == '/' && is_char(next, '/') {
                    self.parse_line_comment()
                } else if c == '/' && is_char(next, '*') {
                    self.parse_block_comment()
                } else if c == '#' && is_char(next, '[') {
                    self.parse_annotation()
                } else if c == '\n' {
                    let line = self.line();
                    let column = self.column();
                    proof {
                        self.lemma_cursor_bounds();
                    }
                    self.read_char();
                    plain_token(TokenType::NEWLINE, "\\n".to_owned(), line, column)
                } else {
                    self.parse_operator()
                };
                Some(token)
            },
        }
    }

    /// Scans the text from the cursor to its end and returns every token,
    /// the last of which marks the end of input.
    pub fn begin(&mut self) -> (scanned: Result<Vec<LexerToken>, ApolloError>)
        requires
            old(self).wf(),
        ensures
            final(self).wf(),
            final(self).source() == old(self).source(),
            final(self).verbosity() == old(self).verbosity(),
            scanned is Ok,
            scanned->Ok_0.deep_view() == tokens_from(old(self).source(), old(self).cursor()),
            final(self).cursor() == end_index(old(self).source(), old(self).cursor()),
            scanned->Ok_0.len() >= 1,
            scanned->Ok_0@.last()@ == end_of_input(
                old(self).source(),
                end_index(old(self).source(), old(self).cursor()),
            ),
            forall|i: int|
                0 <= i < scanned->Ok_0.len() - 1 ==> (#[trigger] scanned->Ok_0@[i]).token_type
                    != TokenType::EOF,
    {
        let ghost src = self.source();
        let ghost pos = self.cursor();
        let mut tokens: Vec<LexerToken> = Vec::new();
        let mut done = false;
        assert(tokens.deep_view() =~= Seq::<TokenView>::empty());
        while !done
            invariant
                self.wf(),
                self.source() == src,
                self.verbosity() == old(self).verbosity(),
                !done ==> tokens.deep_view() + tokens_from(src, self.cursor()) == tokens_from(
                    src,
                    pos,
                ),
                done ==> tokens.deep_view() == tokens_from(src, pos),
                done ==> char_at(src, self.cursor()) is None,
                end_index(src, self.cursor()) == end_index(src, pos),
            decreases (if self.cursor() < src.len() {
                src.len() - self.cursor()
            } else {
                0
            }) + (if done {
                0int
            } else {
                1int
            }),
        {
            let ghost at = self.cursor();
            let ghost before = tokens.deep_view();
            proof {
                lemma_token_advances(src, at);
                lemma_skip_blanks(src, at);
            }
            // A scanner that yields nothing stands in the sequence as an
            // empty error at the place of the cursor.
            let token = match self.next_token() {
                Some(token) => token,
                None => LexerToken {
                    token_type: TokenType::ERROR,
                    value: String::new(),
                    metadata: Vec::new(),
                    line: self.line(),
                    column: self.column(),
                },
            };
            done = match token.token_type {
                TokenType::EOF => true,
                _ => false,
            };
            let ghost view = token@;
            tokens.push(token);
            proof {
                assert(tokens.deep_view() =~= before.push(view));
                lemma_lexed_is_no_end(src, skip_blanks(src, at));
                if done {
                    assert(before.push(view) =~= before + seq![view]);
                } else {
                    assert(before.push(view) + tokens_from(src, self.cursor()) =~= before
                        + (seq![view] + tokens_from(src, self.cursor())));
                }
            }
        }
        proof {
            lemma_ends_with_one_eof(src, pos);
            lemma_eof_position(src, pos);
            assert(tokens@.last()@ == tokens.deep_view()[tokens.len() - 1]);
            assert forall|i: int| 0 <= i < tokens.len() - 1 implies (#[trigger] tokens@[i]).token_type
                != TokenType::EOF by {
                assert(tokens@[i]@ == tokens.deep_view()[i]);
            }
        }
        Ok(tokens)
    }
}

} // verus!
