//! What holds of every scan.

use vstd::prelude::*;
use crate::grammar::{
    block_close, cursor_after, end_index, end_of_input, find_char, is_blank, is_digit,
    is_identifier_start, lemma_block_close, lemma_find_char, lemma_lex_at_end, lemma_skip_blanks,
    lemma_string_body_end, lemma_token_advances, lex_at, lex_line_comment, placed, skip_blanks,
    string_body,
    token_at, tokens_from, without_cr,
};
use crate::position::char_at;
use crate::token::{TokenType, TokenView};

verus! {

/// A scan ends with the token that marks the end of input, and no token
/// before the last is of that kind.
pub proof fn lemma_ends_with_one_eof(src: Seq<char>, pos: int)
    ensures
        tokens_from(src, pos).len() >= 1,
        tokens_from(src, pos).last().kind == TokenType::EOF,
        forall|i: int|
            0 <= i < tokens_from(src, pos).len() - 1 ==> (#[trigger] tokens_from(src, pos)[i]).kind
                != TokenType::EOF,
    decreases src.len() - pos,
{
    lemma_token_advances(src, pos);
    if char_at(src, skip_blanks(src, pos)) is Some {
        let next = cursor_after(src, pos);
        lemma_ends_with_one_eof(src, next);
        let rest = tokens_from(src, next);
        let all = tokens_from(src, pos);
        assert(all =~= seq![token_at(src, pos)] + rest);
        assert(all.last() == rest.last());
        assert forall|i: int| 0 <= i < all.len() - 1 implies (#[trigger] all[i]).kind
            != TokenType::EOF by {
            if i > 0 {
                assert(all[i] == rest[i - 1]);
            }
        }
    }
}

/// The token that marks the end of input carries the line and column of
/// the index where the scan ended: for a scan that starts inside the text
/// or at its end, the index after the last character.
pub proof fn lemma_eof_position(src: Seq<char>, pos: int)
    ensures
        tokens_from(src, pos).len() >= 1,
        tokens_from(src, pos).last() == end_of_input(src, end_index(src, pos)),
    decreases src.len() - pos,
{
    lemma_token_advances(src, pos);
    lemma_skip_blanks(src, pos);
    if char_at(src, skip_blanks(src, pos)) is Some {
        let next = cursor_after(src, pos);
        lemma_eof_position(src, next);
        let rest = tokens_from(src, next);
        let all = tokens_from(src, pos);
        assert(all =~= seq![token_at(src, pos)] + rest);
        assert(all.last() == rest.last());
    }
}

/// Only string literals and annotations set spans aside, and an annotation
/// sets aside exactly one.
pub proof fn lemma_spans_set_aside(src: Seq<char>, pos: int)
    ensures
        forall|i: int|
            0 <= i < tokens_from(src, pos).len() ==> {
                let token = #[trigger] tokens_from(src, pos)[i];
                &&& token.metadata.len() > 0 ==> token.kind == TokenType::STRING || token.kind
                    == TokenType::ANNOTATION
                &&& token.kind == TokenType::ANNOTATION ==> token.metadata.len() == 1
            },
    decreases src.len() - pos,
{
    lemma_token_advances(src, pos);
    let first = token_at(src, pos);
    let start = skip_blanks(src, pos);
    if char_at(src, start) is Some {
        let next = cursor_after(src, pos);
        lemma_spans_set_aside(src, next);
        let rest = tokens_from(src, next);
        let all = tokens_from(src, pos);
        assert(all =~= seq![first] + rest);
        assert forall|i: int| 0 <= i < all.len() implies {
            let token = #[trigger] all[i];
            &&& token.metadata.len() > 0 ==> token.kind == TokenType::STRING || token.kind
                == TokenType::ANNOTATION
            &&& token.kind == TokenType::ANNOTATION ==> token.metadata.len() == 1
        } by {
            if i > 0 {
                assert(all[i] == rest[i - 1]);
            } else {
                assert(string_body(src, start + 1).kind == TokenType::STRING);
            }
        }
    }
}

/// The text between the quotes of a string literal, put together again
/// from the text of the token and the segments it set aside: each opening
/// brace is followed by the next segment.
pub open spec fn interpolated(text: Seq<char>, segments: Seq<Seq<char>>) -> Seq<char>
    decreases text.len(),
{
    if text.len() == 0 {
        Seq::empty()
    } else if text[0] == '{' && segments.len() > 0 {
        seq!['{'] + segments[0] + interpolated(text.skip(1), segments.skip(1))
    } else {
        seq![text[0]] + interpolated(text.skip(1), segments)
    }
}

/// The delimiter that closes a token, if the token was closed.
pub open spec fn closing(closed: bool, delimiter: Seq<char>) -> Seq<char> {
    if closed {
        delimiter
    } else {
        Seq::empty()
    }
}

/// How a token is written in the source: its text between the delimiters
/// of its kind, with the segments it set aside back in place. `closed`
/// says whether the closing delimiter was there. Carriage returns inside a
/// line comment are not kept by the token and are not written here.
pub open spec fn written(token: TokenView, closed: bool) -> Seq<char> {
    match token.kind {
        TokenType::STRING => seq!['"'] + interpolated(token.lexeme, token.metadata) + closing(
            closed,
            seq!['"'],
        ),
        TokenType::CHARACTER => seq!['\''] + token.lexeme + closing(closed, seq!['\'']),
        TokenType::LINECOMMENT => seq!['/', '/'] + token.lexeme + closing(closed, seq!['\n']),
        TokenType::BLOCKCOMMENT => seq!['/', '*'] + token.lexeme + closing(closed, seq!['*', '/']),
        TokenType::ANNOTATION => seq!['#', '['] + token.metadata[0] + closing(closed, seq![']']),
        TokenType::NEWLINE => seq!['\n'],
        TokenType::EOF => Seq::empty(),
        _ => token.lexeme,
    }
}

/// Whether `token` accounts for the span of text `span`: the span is what
/// `written` gives, but for the carriage returns of a line comment.
pub open spec fn accounts_for(token: TokenView, span: Seq<char>, closed: bool) -> bool {
    written(token, closed) == if token.kind == TokenType::LINECOMMENT {
        without_cr(span)
    } else {
        span
    }
}

/// What a scan takes from the text for one token: the blanks it passes
/// over, and the characters of the token itself.
pub struct Piece {
    pub blanks: Seq<char>,
    pub span: Seq<char>,
}

/// The pieces that a scan from `pos` cuts the text into, one for each token
/// of `tokens_from`.
pub open spec fn pieces_from(src: Seq<char>, pos: int) -> Seq<Piece>
    decreases src.len() - pos,
    via pieces_from_decreases
{
    let start = skip_blanks(src, pos);
    let piece = Piece {
        blanks: src.subrange(pos, start),
        span: src.subrange(start, cursor_after(src, pos)),
    };
    if char_at(src, start) is None {
        seq![piece]
    } else {
        seq![piece] + pieces_from(src, cursor_after(src, pos))
    }
}

#[via_fn]
proof fn pieces_from_decreases(src: Seq<char>, pos: int) {
    lemma_token_advances(src, pos);
}

/// The pieces put end to end.
pub open spec fn joined(pieces: Seq<Piece>) -> Seq<char>
    decreases pieces.len(),
{
    if pieces.len() == 0 {
        Seq::empty()
    } else {
        pieces[0].blanks + pieces[0].span + joined(pieces.skip(1))
    }
}

/// Carriage returns are dropped from each part of a text alike.
pub proof fn lemma_without_cr_concat(a: Seq<char>, b: Seq<char>)
    ensures
        without_cr(a + b) == without_cr(a) + without_cr(b),
    decreases b.len(),
{
    if b.len() == 0 {
        assert(a + b =~= a);
        assert(without_cr(a) + without_cr(b) =~= without_cr(a));
    } else {
        lemma_without_cr_concat(a, b.drop_last());
        assert((a + b).drop_last() =~= a + b.drop_last());
        assert((a + b).last() == b.last());
        if b.last() != '\r' {
            assert(without_cr(a) + without_cr(b.drop_last()).push(b.last()) =~= (without_cr(a)
                + without_cr(b.drop_last())).push(b.last()));
        }
    }
}

/// A text of characters that are no carriage returns stays as it is.
pub proof fn lemma_without_cr_keeps(text: Seq<char>)
    requires
        forall|i: int| 0 <= i < text.len() ==> text[i] != '\r',
    ensures
        without_cr(text) == text,
    decreases text.len(),
{
    if text.len() > 0 {
        lemma_without_cr_keeps(text.drop_last());
        assert(text.drop_last().push(text.last()) =~= text);
    }
}

/// What is left of a text holds no carriage return, and holds a line
/// break only if the text did.
pub proof fn lemma_without_cr_clean(text: Seq<char>)
    ensures
        forall|i: int| 0 <= i < without_cr(text).len() ==> without_cr(text)[i] != '\r',
        !text.contains('\n') ==> !without_cr(text).contains('\n'),
    decreases text.len(),
{
    if text.len() > 0 {
        let front = text.drop_last();
        lemma_without_cr_clean(front);
        if !text.contains('\n') {
            assert forall|i: int| 0 <= i < front.len() implies front[i] != '\n' by {
                assert(front[i] == text[i]);
                assert(text.contains(text[i]));
            }
            assert(!front.contains('\n'));
            assert(text.contains(text.last()));
            assert forall|i: int| 0 <= i < without_cr(text).len() implies without_cr(text)[i]
                != '\n' by {
                if i < without_cr(front).len() {
                    assert(without_cr(front).contains(without_cr(front)[i]));
                }
            }
        }
    }
}

/// The text of a line comment holds neither a carriage return nor a line
/// break.
pub proof fn lemma_line_comment_is_one_line(src: Seq<char>, start: int)
    requires
        0 <= start,
        start + 2 <= src.len(),
    ensures
        !lex_line_comment(src, start).lexeme.contains('\r'),
        !lex_line_comment(src, start).lexeme.contains('\n'),
{
    lemma_find_char(src, start + 2, '\n');
    let stop = find_char(src, start + 2, '\n');
    let body = src.subrange(start + 2, stop);
    lemma_without_cr_clean(body);
    assert(!body.contains('\n')) by {
        assert forall|i: int| 0 <= i < body.len() implies body[i] != '\n' by {
            assert(body[i] == src[start + 2 + i]);
        }
    }
}

/// The body of a string literal is its text with the segments back in
/// place, and the closing quote if the literal was closed; a literal that
/// was not closed runs to the end of the text.
pub proof fn lemma_string_body_written(src: Seq<char>, pos: int) -> (closed: bool)
    requires
        0 <= pos <= src.len(),
    ensures
        src.subrange(pos, string_body(src, pos).end) == interpolated(
            string_body(src, pos).lexeme,
            string_body(src, pos).metadata,
        ) + closing(closed, seq!['"']),
        !closed ==> string_body(src, pos).end == src.len(),
    decreases src.len() - pos,
{
    let body = string_body(src, pos);
    lemma_string_body_end(src, pos);
    if pos == src.len() {
        assert(src.subrange(pos, body.end) =~= interpolated(body.lexeme, body.metadata) + closing(
            false,
            seq!['"'],
        ));
        false
    } else if src[pos] == '"' {
        assert(src.subrange(pos, body.end) =~= interpolated(body.lexeme, body.metadata) + closing(
            true,
            seq!['"'],
        ));
        true
    } else if src[pos] == '{' {
        lemma_find_char(src, pos + 1, '}');
        let close = find_char(src, pos + 1, '}');
        let segment = src.subrange(pos + 1, close);
        if close < src.len() {
            let closed = lemma_string_body_written(src, close + 1);
            let rest = string_body(src, close + 1);
            lemma_string_body_end(src, close + 1);
            let tail = seq!['}'] + rest.lexeme;
            assert(body.lexeme.skip(1) =~= tail);
            assert(body.metadata.skip(1) =~= rest.metadata);
            assert(tail.skip(1) =~= rest.lexeme);
            assert(interpolated(tail, rest.metadata) == seq!['}'] + interpolated(
                rest.lexeme,
                rest.metadata,
            ));
            assert(src.subrange(pos, body.end) =~= seq!['{'] + segment + (seq!['}'] + src.subrange(
                close + 1,
                rest.end,
            )));
            assert(src.subrange(pos, body.end) =~= interpolated(body.lexeme, body.metadata)
                + closing(closed, seq!['"']));
            closed
        } else {
            assert(body.lexeme.skip(1) =~= Seq::<char>::empty());
            assert(interpolated(body.lexeme.skip(1), body.metadata.skip(1)) =~= Seq::<
                char,
            >::empty());
            assert(src.subrange(pos, body.end) =~= seq!['{'] + segment);
            assert(src.subrange(pos, body.end) =~= interpolated(body.lexeme, body.metadata)
                + closing(false, seq!['"']));
            false
        }
    } else {
        let closed = lemma_string_body_written(src, pos + 1);
        let rest = string_body(src, pos + 1);
        lemma_string_body_end(src, pos + 1);
        assert(body.lexeme.skip(1) =~= rest.lexeme);
        assert(src.subrange(pos, body.end) =~= seq![src[pos]] + src.subrange(pos + 1, rest.end));
        assert(src.subrange(pos, body.end) =~= interpolated(body.lexeme, body.metadata) + closing(
            closed,
            seq!['"'],
        ));
        closed
    }
}

/// Every token accounts for the characters it was read from: the span of
/// the token is the token as written, without its closing delimiter only
/// where the text ends inside the token.
pub proof fn lemma_token_accounts_for_span(src: Seq<char>, start: int) -> (closed: bool)
    requires
        0 <= start < src.len(),
    ensures
        accounts_for(
            placed(lex_at(src, start), src, start),
            src.subrange(start, lex_at(src, start).end),
            closed,
        ),
        !closed ==> lex_at(src, start).end == src.len(),
{
    let c = src[start];
    let next = char_at(src, start + 1);
    let lexed = lex_at(src, start);
    let span = src.subrange(start, lexed.end);
    lemma_lex_at_end(src, start);
    let token = placed(lexed, src, start);
    if is_digit(c) || is_identifier_start(c) {
        true
    } else if c == '"' {
        let closed = lemma_string_body_written(src, start + 1);
        assert(span =~= seq!['"'] + src.subrange(start + 1, lexed.end));
        assert(span =~= written(token, closed));
        closed
    } else if c == '\'' {
        lemma_find_char(src, start + 1, '\'');
        let close = find_char(src, start + 1, '\'');
        let closed = close < src.len();
        if lexed.kind == TokenType::CHARACTER {
            assert(span =~= seq!['\''] + src.subrange(start + 1, close) + closing(
                closed,
                seq!['\''],
            ));
        }
        closed
    } else if c == '/' && next == Some('/') {
        lemma_find_char(src, start + 2, '\n');
        let stop = find_char(src, start + 2, '\n');
        let closed = stop < src.len();
        let body = src.subrange(start + 2, stop);
        assert(span =~= seq!['/', '/'] + body + closing(closed, seq!['\n']));
        lemma_without_cr_concat(seq!['/', '/'] + body, closing(closed, seq!['\n']));
        lemma_without_cr_concat(seq!['/', '/'], body);
        lemma_without_cr_keeps(seq!['/', '/']);
        lemma_without_cr_keeps(closing(closed, seq!['\n']));
        closed
    } else if c == '/' && next == Some('*') {
        lemma_block_close(src, start + 2);
        let close = block_close(src, start + 2);
        let closed = close < src.len();
        assert(span =~= seq!['/', '*'] + src.subrange(start + 2, close) + closing(
            closed,
            seq!['*', '/'],
        ));
        closed
    } else if c == '#' && next == Some('[') {
        lemma_find_char(src, start + 2, ']');
        let close = find_char(src, start + 2, ']');
        let closed = close < src.len();
        assert(span =~= seq!['#', '['] + src.subrange(start + 2, close) + closing(
            closed,
            seq![']'],
        ));
        closed
    } else if c == '\n' {
        assert(span =~= seq!['\n']);
        true
    } else {
        true
    }
}

/// Nothing of the text is lost in a scan. The scan cuts the text from
/// `pos` on into one piece for each token; the pieces put end to end are
/// the text; what a piece holds before its token is blanks; and each token
/// accounts for the span of its piece, without a closing delimiter only if
/// the text ends inside the token, which is then the last before the end
/// of input.
pub proof fn lemma_scan_accounts_for_text(src: Seq<char>, pos: int)
    requires
        0 <= pos <= src.len(),
    ensures
        pieces_from(src, pos).len() == tokens_from(src, pos).len(),
        joined(pieces_from(src, pos)) == src.subrange(pos, src.len() as int),
        forall|i: int, j: int|
            0 <= i < pieces_from(src, pos).len() && 0 <= j < pieces_from(src, pos)[i].blanks.len()
                ==> is_blank(#[trigger] pieces_from(src, pos)[i].blanks[j]),
        forall|i: int|
            0 <= i < pieces_from(src, pos).len() ==> accounts_for(
                tokens_from(src, pos)[i],
                (#[trigger] pieces_from(src, pos)[i]).span,
                true,
            ) || (i == pieces_from(src, pos).len() - 2 && accounts_for(
                tokens_from(src, pos)[i],
                pieces_from(src, pos)[i].span,
                false,
            )),
    decreases src.len() - pos,
{
    lemma_token_advances(src, pos);
    lemma_skip_blanks(src, pos);
    let start = skip_blanks(src, pos);
    let end = cursor_after(src, pos);
    let pieces = pieces_from(src, pos);
    let tokens = tokens_from(src, pos);
    if char_at(src, start) is None {
        let piece = Piece { blanks: src.subrange(pos, start), span: src.subrange(start, end) };
        assert(pieces =~= seq![piece]);
        assert(joined(pieces.skip(1)) =~= Seq::<char>::empty());
        assert(piece.span =~= Seq::<char>::empty());
        assert(joined(pieces) =~= src.subrange(pos, src.len() as int));
    } else {
        lemma_lex_at_end(src, start);
        let piece = Piece { blanks: src.subrange(pos, start), span: src.subrange(start, end) };
        let closed = lemma_token_accounts_for_span(src, start);
        lemma_scan_accounts_for_text(src, end);
        lemma_ends_with_one_eof(src, end);
        let rest = pieces_from(src, end);
        let later = tokens_from(src, end);
        assert(pieces =~= seq![piece] + rest);
        assert(tokens =~= seq![token_at(src, pos)] + later);
        assert(pieces.skip(1) =~= rest);
        assert(joined(pieces) == piece.blanks + piece.span + joined(rest));
        assert(joined(pieces) =~= src.subrange(pos, src.len() as int));
        if !closed {
            // The text ends inside the token: only the end of input follows.
            lemma_skip_blanks(src, end);
            assert(later.len() == 1);
        }
        assert forall|i: int| 0 <= i < pieces.len() implies accounts_for(
            tokens[i],
            (#[trigger] pieces[i]).span,
            true,
        ) || (i == pieces.len() - 2 && accounts_for(tokens[i], pieces[i].span, false)) by {
            if i > 0 {
                assert(pieces[i] == rest[i - 1]);
                assert(tokens[i] == later[i - 1]);
            }
        }
        assert forall|i: int, j: int|
            0 <= i < pieces.len() && 0 <= j < pieces[i].blanks.len() implies is_blank(
            #[trigger] pieces[i].blanks[j],
        ) by {
            if i > 0 {
                assert(pieces[i] == rest[i - 1]);
            }
        }
    }
}

} // verus!
