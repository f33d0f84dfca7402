//! What the scanner recognises, stated over the source text alone.
//!
//! Every function here is a specification: `lex_at` says which token starts
//! at an index and where it ends, `token_at` and `cursor_after` add the
//! blanks before it and its position, and `tokens_from` is the whole stream.

use vstd::prelude::*;
use crate::position::{char_at, column_of, line_of};
use crate::std_specs::unicode_alphanumeric;
use crate::token::{TokenType, TokenView};

verus! {

/// Space, carriage return and tab separate tokens and belong to none.
pub open spec fn is_blank(c: char) -> bool {
    c == ' ' || c == '\r' || c == '\t'
}

/// A decimal digit.
pub open spec fn is_digit(c: char) -> bool {
    '0' <= c <= '9'
}

/// A digit of base 16, in either case.
pub open spec fn is_hex_digit(c: char) -> bool {
    is_digit(c) || 'a' <= c <= 'f' || 'A' <= c <= 'F'
}

/// A digit of base 8.
pub open spec fn is_octal_digit(c: char) -> bool {
    '0' <= c <= '7'
}

/// A digit of base 2.
pub open spec fn is_binary_digit(c: char) -> bool {
    c == '0' || c == '1'
}

/// A letter of the basic Latin alphabet.
pub open spec fn is_letter(c: char) -> bool {
    'a' <= c <= 'z' || 'A' <= c <= 'Z'
}

/// An identifier starts with a letter or an underscore.
pub open spec fn is_identifier_start(c: char) -> bool {
    is_letter(c) || c == '_'
}

/// An identifier goes on over alphanumeric characters and underscores.
pub open spec fn is_identifier_part(c: char) -> bool {
    unicode_alphanumeric(c) || c == '_'
}

/// A numeric literal goes on over digits, letters and dots, so that a
/// literal with a stray letter in it is reported whole.
pub open spec fn is_number_part(c: char) -> bool {
    is_digit(c) || is_letter(c) || c == '.'
}

/// The first index at or after `pos` that holds no blank.
pub open spec fn skip_blanks(src: Seq<char>, pos: int) -> int
    decreases src.len() - pos,
{
    if 0 <= pos < src.len() && is_blank(src[pos]) {
        skip_blanks(src, pos + 1)
    } else {
        pos
    }
}

/// The first index at or after `from` that holds `target`, or the end of the
/// text if there is none.
pub open spec fn find_char(src: Seq<char>, from: int, target: char) -> int
    decreases src.len() - from,
{
    if 0 <= from < src.len() && src[from] != target {
        find_char(src, from + 1, target)
    } else {
        from
    }
}

/// The end of the longest run of number characters that starts at `from`.
pub open spec fn number_end(src: Seq<char>, from: int) -> int
    decreases src.len() - from,
{
    if 0 <= from < src.len() && is_number_part(src[from]) {
        number_end(src, from + 1)
    } else {
        from
    }
}

/// The end of the longest run of identifier characters that starts at `from`.
pub open spec fn identifier_end(src: Seq<char>, from: int) -> int
    decreases src.len() - from,
{
    if 0 <= from < src.len() && is_identifier_part(src[from]) {
        identifier_end(src, from + 1)
    } else {
        from
    }
}

/// Whether `*/` stands at index `pos`.
pub open spec fn closes_block(src: Seq<char>, pos: int) -> bool {
    char_at(src, pos) == Some('*') && char_at(src, pos + 1) == Some('/')
}

/// The first index at or after `from` where `*/` stands, or the end of the
/// text if there is none.
pub open spec fn block_close(src: Seq<char>, from: int) -> int
    decreases src.len() - from,
{
    if 0 <= from < src.len() && !closes_block(src, from) {
        block_close(src, from + 1)
    } else {
        from
    }
}

/// The text without its carriage returns.
pub open spec fn without_cr(text: Seq<char>) -> Seq<char>
    decreases text.len(),
{
    if text.len() == 0 {
        text
    } else if text.last() == '\r' {
        without_cr(text.drop_last())
    } else {
        without_cr(text.drop_last()).push(text.last())
    }
}

/// A token as it is read off the text: its kind, its text, the spans set
/// aside, and the index after its last character.
pub struct Lexed {
    pub kind: TokenType,
    pub lexeme: Seq<char>,
    pub metadata: Seq<Seq<char>>,
    pub end: int,
}

/// Whether `run` is written in the radix that `marker` announces: a zero,
/// the marker, and no dot anywhere.
pub open spec fn has_radix(run: Seq<char>, marker: char) -> bool {
    run.len() >= 2 && run[0] == '0' && run[1] == marker && !run.contains('.')
}

/// Whether `c` is a digit of the radix that `kind` stands for.
pub open spec fn is_digit_of(kind: TokenType, c: char) -> bool {
    match kind {
        TokenType::HEXADECIMAL => is_hex_digit(c),
        TokenType::OCTAL => is_octal_digit(c),
        TokenType::BINARY => is_binary_digit(c),
        _ => is_digit(c),
    }
}

/// Whether `digits` holds nothing but digits of the radix of `kind`.
pub open spec fn all_digits_of(kind: TokenType, digits: Seq<char>) -> bool {
    forall|i: int| 0 <= i < digits.len() ==> is_digit_of(kind, #[trigger] digits[i])
}

/// The kind of a literal that announces the radix of `kind`: that kind if
/// `digits`, which follow the marker, are of that radix, else an error.
pub open spec fn radix_kind(kind: TokenType, digits: Seq<char>) -> TokenType {
    if all_digits_of(kind, digits) {
        kind
    } else {
        TokenType::ERROR
    }
}

/// Digits with at most one dot among them.
pub open spec fn is_float_body(body: Seq<char>) -> bool {
    &&& forall|i: int| 0 <= i < body.len() ==> is_digit(#[trigger] body[i]) || body[i] == '.'
    &&& forall|i: int, j: int|
        0 <= i < j < body.len() ==> !(#[trigger] body[i] == '.' && #[trigger] body[j] == '.')
}

/// The kind of a numeric literal, decided once the whole run is known.
///
/// A run that announces a radix (`0x`, `0o`, `0b`) is of that radix if the
/// characters after the marker are digits of it, and an error otherwise.
/// Any other run that ends in `f` is a float if what stands before the `f`
/// is digits with at most one dot, and an error otherwise. Every other run
/// is a decimal number.
pub open spec fn number_kind(run: Seq<char>) -> TokenType {
    if has_radix(run, 'x') {
        radix_kind(TokenType::HEXADECIMAL, run.skip(2))
    } else if has_radix(run, 'o') {
        radix_kind(TokenType::OCTAL, run.skip(2))
    } else if has_radix(run, 'b') {
        radix_kind(TokenType::BINARY, run.skip(2))
    } else if run.len() > 0 && run.last() == 'f' {
        if is_float_body(run.drop_last()) {
            TokenType::FLOAT
        } else {
            TokenType::ERROR
        }
    } else {
        TokenType::NUMBER
    }
}

/// The numeric literal that starts at `start`: the longest run of number
/// characters, kept as written.
pub open spec fn lex_number(src: Seq<char>, start: int) -> Lexed {
    let end = number_end(src, start);
    let run = src.subrange(start, end);
    Lexed { kind: number_kind(run), lexeme: run, metadata: Seq::empty(), end }
}

/// The identifier that starts at `start`: its first character and the
/// longest run of identifier characters after it.
pub open spec fn lex_identifier(src: Seq<char>, start: int) -> Lexed {
    let end = identifier_end(src, start + 1);
    Lexed {
        kind: TokenType::IDENTIFIER,
        lexeme: src.subrange(start, end),
        metadata: Seq::empty(),
        end,
    }
}

/// The rest of a string literal from index `pos` on, which is inside the
/// quotes and outside any interpolation.
///
/// A quote ends the literal. An opening brace starts an interpolation: the
/// brace stays in the text, the characters up to the first closing brace
/// are set aside as one segment, and the closing brace stays in the text.
/// Braces do not nest. The end of input ends the literal, and a segment
/// that was open, where it stands.
pub open spec fn string_body(src: Seq<char>, pos: int) -> Lexed
    decreases src.len() - pos,
    via string_body_decreases
{
    if !(0 <= pos < src.len()) {
        Lexed {
            kind: TokenType::STRING,
            lexeme: Seq::empty(),
            metadata: Seq::empty(),
            end: pos,
        }
    } else if src[pos] == '"' {
        Lexed {
            kind: TokenType::STRING,
            lexeme: Seq::empty(),
            metadata: Seq::empty(),
            end: pos + 1,
        }
    } else if src[pos] == '{' {
        let close = find_char(src, pos + 1, '}');
        let segment = src.subrange(pos + 1, close);
        if close < src.len() {
            let rest = string_body(src, close + 1);
            Lexed {
                kind: TokenType::STRING,
                lexeme: seq!['{', '}'] + rest.lexeme,
                metadata: seq![segment] + rest.metadata,
                end: rest.end,
            }
        } else {
            Lexed {
                kind: TokenType::STRING,
                lexeme: seq!['{'],
                metadata: seq![segment],
                end: close,
            }
        }
    } else {
        let rest = string_body(src, pos + 1);
        Lexed {
            kind: TokenType::STRING,
            lexeme: seq![src[pos]] + rest.lexeme,
            metadata: rest.metadata,
            end: rest.end,
        }
    }
}

#[via_fn]
proof fn string_body_decreases(src: Seq<char>, pos: int) {
    if 0 <= pos < src.len() && src[pos] == '{' {
        lemma_find_char(src, pos + 1, '}');
    }
}

/// The string literal whose opening quote is at `start`.
pub open spec fn lex_string(src: Seq<char>, start: int) -> Lexed {
    string_body(src, start + 1)
}

/// The character literal whose opening quote is at `start`.
///
/// It runs to the next quote or to the end of input. Unless a backslash
/// follows the opening quote, it must hold exactly one character; if it
/// does not, the token is an error that carries the literal as written.
pub open spec fn lex_character(src: Seq<char>, start: int) -> Lexed {
    let close = find_char(src, start + 1, '\'');
    let end = if close < src.len() {
        close + 1
    } else {
        close
    };
    let text = src.subrange(start + 1, close);
    if char_at(src, start + 1) != Some('\\') && text.len() != 1 {
        Lexed {
            kind: TokenType::ERROR,
            lexeme: src.subrange(start, end),
            metadata: Seq::empty(),
            end,
        }
    } else {
        Lexed { kind: TokenType::CHARACTER, lexeme: text, metadata: Seq::empty(), end }
    }
}

/// The line comment whose `//` is at `start`: it runs to the end of the
/// line and takes the line break with it; its text is what stands between,
/// without carriage returns.
pub open spec fn lex_line_comment(src: Seq<char>, start: int) -> Lexed {
    let stop = find_char(src, start + 2, '\n');
    Lexed {
        kind: TokenType::LINECOMMENT,
        lexeme: without_cr(src.subrange(start + 2, stop)),
        metadata: Seq::empty(),
        end: if stop < src.len() {
            stop + 1
        } else {
            stop
        },
    }
}

/// The block comment whose `/*` is at `start`: it runs through the next
/// `*/`, or to the end of input if there is none.
pub open spec fn lex_block_comment(src: Seq<char>, start: int) -> Lexed {
    let close = block_close(src, start + 2);
    Lexed {
        kind: TokenType::BLOCKCOMMENT,
        lexeme: src.subrange(start + 2, close),
        metadata: Seq::empty(),
        end: if close < src.len() {
            close + 2
        } else {
            close
        },
    }
}

/// The text of every annotation token; the body is set aside.
pub open spec fn annotation_text() -> Seq<char> {
    "#[{}]"@
}

/// The annotation whose `#[` is at `start`: its body runs to the next `]`
/// and is set aside as the one segment of the token.
pub open spec fn lex_annotation(src: Seq<char>, start: int) -> Lexed {
    let close = find_char(src, start + 2, ']');
    Lexed {
        kind: TokenType::ANNOTATION,
        lexeme: annotation_text(),
        metadata: seq![src.subrange(start + 2, close)],
        end: if close < src.len() {
            close + 1
        } else {
            close
        },
    }
}

/// The text of every line-break token.
pub open spec fn newline_text() -> Seq<char> {
    "\\n"@
}

/// The operator or punctuation mark that starts with `c`, given the two
/// characters after it, and how many characters it takes. The longest mark
/// wins. A character that starts no mark is unknown.
pub open spec fn operator_of(c: char, next: Option<char>, after: Option<char>) -> (TokenType, int) {
    if c == '<' {
        if next == Some('=') {
            (TokenType::LESSEQL, 2)
        } else if next == Some('<') {
            if after == Some('=') {
                (TokenType::LEFTSHIFTASSIGN, 3)
            } else {
                (TokenType::LEFTSHIFT, 2)
            }
        } else {
            (TokenType::LESS, 1)
        }
    } else if c == '>' {
        if next == Some('=') {
            (TokenType::GREATEREQL, 2)
        } else if next == Some('>') {
            if after == Some('=') {
                (TokenType::RIGHTSHIFTASSIGN, 3)
            } else {
                (TokenType::RIGHTSHIFT, 2)
            }
        } else {
            (TokenType::GREATER, 1)
        }
    } else if c == '+' {
        if next == Some('+') {
            (TokenType::INCREMENT, 2)
        } else if next == Some('=') {
            (TokenType::ADDASSIGN, 2)
        } else {
            (TokenType::PLUS, 1)
        }
    } else if c == '-' {
        if next == Some('-') {
            (TokenType::DECREMENT, 2)
        } else if next == Some('>') {
            (TokenType::RIGHTARROW, 2)
        } else if next == Some('=') {
            (TokenType::SUBASSIGN, 2)
        } else {
            (TokenType::MINUS, 1)
        }
    } else if c == '=' {
        if next == Some('=') {
            (TokenType::EQL, 2)
        } else if next == Some('>') {
            (TokenType::LAMBDA, 2)
        } else {
            (TokenType::ASSIGN, 1)
        }
    } else if c == '/' {
        if next == Some('=') {
            (TokenType::DIVASSIGN, 2)
        } else {
            (TokenType::DIVIDE, 1)
        }
    } else if c == '*' {
        if next == Some('=') {
            (TokenType::STARASSIGN, 2)
        } else {
            (TokenType::STAR, 1)
        }
    } else if c == '!' {
        if next == Some('=') {
            (TokenType::BANGASSIGN, 2)
        } else {
            (TokenType::BANG, 1)
        }
    } else if c == '^' {
        if next == Some('=') {
            (TokenType::CARROTASSIGN, 2)
        } else {
            (TokenType::CARROT, 1)
        }
    } else if c == '|' {
        if next == Some('=') {
            (TokenType::BITORASSIGN, 2)
        } else if next == Some('|') {
            (TokenType::BOOLOR, 2)
        } else {
            (TokenType::BAR, 1)
        }
    } else if c == '&' {
        if next == Some('=') {
            (TokenType::BITANDASSIGN, 2)
        } else if next == Some('&') {
            (TokenType::BOOLAND, 2)
        } else {
            (TokenType::AMPERSAND, 1)
        }
    } else if c == '%' {
        if next == Some('=') {
            (TokenType::MODASSIGN, 2)
        } else {
            (TokenType::PERCENT, 1)
        }
    } else {
        (single_mark(c), 1)
    }
}

/// The kind of a mark that is one character whatever follows it.
pub open spec fn single_mark(c: char) -> TokenType {
    if c == '@' {
        TokenType::ATSIGN
    } else if c == '#' {
        TokenType::HASH
    } else if c == '~' {
        TokenType::SQUIGGLE
    } else if c == '?' {
        TokenType::QUESTION
    } else if c == ';' {
        TokenType::SEMICOLON
    } else if c == ',' {
        TokenType::COMMA
    } else if c == ':' {
        TokenType::COLON
    } else if c == '.' {
        TokenType::DOT
    } else if c == '(' {
        TokenType::LEFTPAREN
    } else if c == ')' {
        TokenType::RIGHTPAREN
    } else if c == '{' {
        TokenType::LEFTBRACE
    } else if c == '}' {
        TokenType::RIGHTBRACE
    } else if c == '[' {
        TokenType::LEFTBRACKET
    } else if c == ']' {
        TokenType::RIGHTBRACKET
    } else {
        TokenType::UNKNOWN
    }
}

/// The operator or punctuation mark at `start`, with its text as written.
pub open spec fn lex_operator(src: Seq<char>, start: int) -> Lexed {
    let (kind, width) = operator_of(src[start], char_at(src, start + 1), char_at(src, start + 2));
    Lexed {
        kind,
        lexeme: src.subrange(start, start + width),
        metadata: Seq::empty(),
        end: start + width,
    }
}

/// The token that starts at index `start`, which holds a character that is
/// no blank.
pub open spec fn lex_at(src: Seq<char>, start: int) -> Lexed
    recommends
        0 <= start < src.len(),
{
    let c = src[start];
    let next = char_at(src, start + 1);
    if is_digit(c) {
        lex_number(src, start)
    } else if is_identifier_start(c) {
        lex_identifier(src, start)
    } else if c == '"' {
        lex_string(src, start)
    } else if c == '\'' {
        lex_character(src, start)
    } else if c == '/' && next == Some('/') {
        lex_line_comment(src, start)
    } else if c == '/' && next == Some('*') {
        lex_block_comment(src, start)
    } else if c == '#' && next == Some('[') {
        lex_annotation(src, start)
    } else if c == '\n' {
        Lexed {
            kind: TokenType::NEWLINE,
            lexeme: newline_text(),
            metadata: Seq::empty(),
            end: start + 1,
        }
    } else {
        lex_operator(src, start)
    }
}

/// The token read off at `start`, with the line and column of `start`.
pub open spec fn placed(lexed: Lexed, src: Seq<char>, start: int) -> TokenView {
    TokenView {
        kind: lexed.kind,
        lexeme: lexed.lexeme,
        metadata: lexed.metadata,
        line: line_of(src, start),
        column: column_of(src, start),
    }
}

/// The token that marks the end of input, met at index `at`.
pub open spec fn end_of_input(src: Seq<char>, at: int) -> TokenView {
    TokenView {
        kind: TokenType::EOF,
        lexeme: Seq::empty(),
        metadata: Seq::empty(),
        line: line_of(src, at),
        column: column_of(src, at),
    }
}

/// The token that a scanner with its cursor at `pos` produces next: the
/// blanks from `pos` on are passed over; if the text ends there, the token
/// marks the end of input, else it is the token that starts there. Either
/// way it carries the line and column of the index where it starts.
pub open spec fn token_at(src: Seq<char>, pos: int) -> TokenView {
    let start = skip_blanks(src, pos);
    if char_at(src, start) is None {
        end_of_input(src, start)
    } else {
        placed(lex_at(src, start), src, start)
    }
}

/// Where the cursor stands after that token: on the first character after
/// it, or where the end of input was met.
pub open spec fn cursor_after(src: Seq<char>, pos: int) -> int {
    let start = skip_blanks(src, pos);
    if char_at(src, start) is None {
        start
    } else {
        lex_at(src, start).end
    }
}

/// Where a scan from `pos` meets the end of input: at the end of the text,
/// or at `pos` itself if that is outside the text.
pub open spec fn end_index(src: Seq<char>, pos: int) -> int {
    if 0 <= pos <= src.len() {
        src.len() as int
    } else {
        pos
    }
}

/// The tokens that a scan from `pos` produces, up to and with the token
/// that marks the end of input.
pub open spec fn tokens_from(src: Seq<char>, pos: int) -> Seq<TokenView>
    decreases src.len() - pos,
    via tokens_from_decreases
{
    if char_at(src, skip_blanks(src, pos)) is None {
        seq![token_at(src, pos)]
    } else {
        seq![token_at(src, pos)] + tokens_from(src, cursor_after(src, pos))
    }
}

#[via_fn]
proof fn tokens_from_decreases(src: Seq<char>, pos: int) {
    lemma_token_advances(src, pos);
}

/// Blanks are passed over and nothing else.
pub proof fn lemma_skip_blanks(src: Seq<char>, pos: int)
    ensures
        pos <= skip_blanks(src, pos),
        0 <= pos <= src.len() ==> skip_blanks(src, pos) <= src.len(),
        !(0 <= pos <= src.len()) ==> skip_blanks(src, pos) == pos,
        forall|i: int| pos <= i < skip_blanks(src, pos) ==> is_blank(#[trigger] src[i]),
        char_at(src, skip_blanks(src, pos)) is Some ==> !is_blank(src[skip_blanks(src, pos)]),
    decreases src.len() - pos,
{
    if 0 <= pos < src.len() && is_blank(src[pos]) {
        lemma_skip_blanks(src, pos + 1);
    }
}

/// `find_char` finds the first occurrence.
pub proof fn lemma_find_char(src: Seq<char>, from: int, target: char)
    ensures
        from <= find_char(src, from, target),
        0 <= from <= src.len() ==> find_char(src, from, target) <= src.len(),
        forall|i: int| from <= i < find_char(src, from, target) ==> #[trigger] src[i] != target,
        char_at(src, find_char(src, from, target)) is Some ==> src[find_char(src, from, target)]
            == target,
    decreases src.len() - from,
{
    if 0 <= from < src.len() && src[from] != target {
        lemma_find_char(src, from + 1, target);
    }
}

/// A run of number characters ends inside the text or at its end.
pub proof fn lemma_number_end(src: Seq<char>, from: int)
    ensures
        from <= number_end(src, from),
        0 <= from <= src.len() ==> number_end(src, from) <= src.len(),
        forall|i: int| from <= i < number_end(src, from) ==> is_number_part(#[trigger] src[i]),
        char_at(src, number_end(src, from)) is Some ==> !is_number_part(
            src[number_end(src, from)],
        ),
    decreases src.len() - from,
{
    if 0 <= from < src.len() && is_number_part(src[from]) {
        lemma_number_end(src, from + 1);
    }
}

/// A run of identifier characters ends inside the text or at its end.
pub proof fn lemma_identifier_end(src: Seq<char>, from: int)
    ensures
        from <= identifier_end(src, from),
        0 <= from <= src.len() ==> identifier_end(src, from) <= src.len(),
        forall|i: int|
            from <= i < identifier_end(src, from) ==> is_identifier_part(#[trigger] src[i]),
        char_at(src, identifier_end(src, from)) is Some ==> !is_identifier_part(
            src[identifier_end(src, from)],
        ),
    decreases src.len() - from,
{
    if 0 <= from < src.len() && is_identifier_part(src[from]) {
        lemma_identifier_end(src, from + 1);
    }
}

/// `block_close` finds the first `*/`.
pub proof fn lemma_block_close(src: Seq<char>, from: int)
    ensures
        from <= block_close(src, from),
        0 <= from <= src.len() ==> block_close(src, from) <= src.len(),
        forall|i: int| from <= i < block_close(src, from) ==> !closes_block(src, i),
        char_at(src, block_close(src, from)) is Some ==> closes_block(
            src,
            block_close(src, from),
        ),
    decreases src.len() - from,
{
    if 0 <= from < src.len() && !closes_block(src, from) {
        lemma_block_close(src, from + 1);
    }
}

/// A string literal ends inside the text or at its end.
pub proof fn lemma_string_body_end(src: Seq<char>, pos: int)
    ensures
        pos <= string_body(src, pos).end,
        0 <= pos <= src.len() ==> string_body(src, pos).end <= src.len(),
    decreases src.len() - pos,
{
    if 0 <= pos < src.len() {
        if src[pos] == '"' {
        } else if src[pos] == '{' {
            lemma_find_char(src, pos + 1, '}');
            let close = find_char(src, pos + 1, '}');
            if close < src.len() {
                lemma_string_body_end(src, close + 1);
            }
        } else {
            lemma_string_body_end(src, pos + 1);
        }
    }
}

/// Every token takes at least one character and ends inside the text or at
/// its end.
pub proof fn lemma_lex_at_end(src: Seq<char>, start: int)
    requires
        0 <= start < src.len(),
    ensures
        start < lex_at(src, start).end <= src.len(),
{
    lemma_number_end(src, start);
    lemma_number_end(src, start + 1);
    lemma_identifier_end(src, start + 1);
    lemma_string_body_end(src, start + 1);
    lemma_find_char(src, start + 1, '\'');
    if start + 1 < src.len() {
        lemma_find_char(src, start + 2, '\n');
        lemma_find_char(src, start + 2, ']');
        lemma_block_close(src, start + 2);
    }
}

/// No token read off the text marks the end of input.
pub proof fn lemma_lexed_is_no_end(src: Seq<char>, start: int)
    ensures
        lex_at(src, start).kind != TokenType::EOF,
{
}

/// Unless the end of input is met, the cursor moves forward.
pub proof fn lemma_token_advances(src: Seq<char>, pos: int)
    ensures
        pos <= cursor_after(src, pos),
        0 <= pos <= src.len() ==> cursor_after(src, pos) <= src.len(),
        char_at(src, skip_blanks(src, pos)) is Some ==> pos < cursor_after(src, pos),
{
    lemma_skip_blanks(src, pos);
    let start = skip_blanks(src, pos);
    if char_at(src, start) is Some {
        lemma_lex_at_end(src, start);
    }
}

} // verus!
