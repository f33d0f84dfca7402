//! The reader that a parser walks the token sequence with.

use vstd::prelude::*;
use crate::token::{LexerToken, TokenView};

verus! {

/// A reader over the tokens of one source text. It holds the token it
/// stands on, or none past the last.
pub struct Parser {
    debug_mode: u8,
    content: Vec<LexerToken>,
    position: usize,
    read_position: usize,
    current_token: Option<LexerToken>,
    current_line: usize,
    current_column: usize,
}

impl Parser {
    /// The tokens under the reader.
    pub closed spec fn tokens(&self) -> Seq<TokenView> {
        self.content.deep_view()
    }

    /// The index of the token that is read next.
    pub closed spec fn next_index(&self) -> int {
        self.read_position as int
    }

    /// The token the reader stands on.
    pub closed spec fn current(&self) -> Option<TokenView> {
        match self.current_token {
            Some(token) => Some(token@),
            None => None,
        }
    }

    /// The token at `index` of `tokens`, or `None` outside them.
    pub open spec fn token_at_index(tokens: Seq<TokenView>, index: int) -> Option<TokenView> {
        if 0 <= index < tokens.len() {
            Some(tokens[index])
        } else {
            None
        }
    }

    /// Makes a reader over `lexer_tokens`, standing on the first of them.
    pub fn new(lexer_tokens: Vec<LexerToken>, debug_mode: u8) -> (parser: Parser)
        ensures
            parser.tokens() == lexer_tokens.deep_view(),
            parser.next_index() == 0,
            parser.current() == Self::token_at_index(parser.tokens(), 0),
    {
        let mut parser = Parser {
            debug_mode,
            content: lexer_tokens,
            position: 0,
            read_position: 0,
            current_token: None,
            current_line: 1,
            current_column: 0,
        };
        parser.read_token();
        parser
    }

    /// Takes up the token at the index that is read next, or none past the
    /// last token.
    fn read_token(&mut self)
        ensures
            final(self).tokens() == old(self).tokens(),
            final(self).next_index() == old(self).next_index(),
            final(self).current() == Self::token_at_index(
                old(self).tokens(),
                old(self).next_index(),
            ),
    {
        if self.read_position >= self.content.len() {
            self.current_token = None;
        } else {
            self.current_token = Some(self.content[self.read_position].clone());
        }
    }

    /// The token the reader stands on, or `None` past the last.
    pub fn current_token(&self) -> (token: Option<&LexerToken>)
        ensures
            match token {
                Some(t) => self.current() == Some(t@),
                None => self.current() is None,
            },
    {
        self.current_token.as_ref()
    }
}

} // verus!
