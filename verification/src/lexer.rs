//! The source cursor: the text under scan and the place reached in it.

use vstd::prelude::*;
use crate::grammar::{is_binary_digit, is_blank, is_hex_digit, is_octal_digit};
use crate::position::{char_at, column_of, lemma_position_bounds, line_of};

pub use crate::token::{LexerToken, TokenType};

verus! {

/// A scanner over one source text.
///
/// The cursor counts the characters read so far. Before the first read it
/// stands before the text (cursor `-1`, no current character, line 1,
/// column 0); after `n + 1` reads the current character is the one at index
/// `n`, or none when `n` is past the end.
pub struct Lexer {
    mode: u8,
    content: Vec<char>,
    position: usize,
    read_position: usize,
    current_char: Option<char>,
    current_line: usize,
    current_column: usize,
}

impl Lexer {
    /// The text under scan.
    pub closed spec fn source(&self) -> Seq<char> {
        self.content@
    }

    /// The index of the current character; `-1` before the first read.
    pub closed spec fn cursor(&self) -> int {
        self.read_position as int - 1
    }

    /// The verbosity the scanner was made with.
    pub closed spec fn verbosity(&self) -> u8 {
        self.mode
    }

    /// The fields agree with each other: the current character, line and
    /// column are those of the cursor, and every counter fits its type.
    pub closed spec fn wf(&self) -> bool {
        &&& self.content.len() < usize::MAX
        &&& self.position as int == if self.read_position == 0 {
            0
        } else {
            self.read_position as int - 1
        }
        &&& self.current_char == char_at(self.content@, self.cursor())
        &&& self.current_line as nat == line_of(self.content@, self.cursor())
        &&& self.current_column as nat == column_of(self.content@, self.cursor())
    }

    /// Makes a scanner over `source` and reads its first character.
    pub fn new(source: &str, mode: u8) -> (lexer: Lexer)
        requires
            source@.len() < usize::MAX,
        ensures
            lexer.wf(),
            lexer.source() == source@,
            lexer.cursor() == 0,
            lexer.verbosity() == mode,
    {
        let mut content: Vec<char> = Vec::new();
        for c in it: source.chars()
            invariant
                it.seq() == source@,
                content@ == it.seq().take(it.index() as int),
        {
            content.push(c);
        }
        let mut lexer = Lexer {
            mode,
            content,
            position: 0,
            read_position: 0,
            current_char: None,
            current_line: 1,
            current_column: 0,
        };
        lexer.read_char();
        lexer
    }

    /// Moves the cursor one character forward.
    pub fn read_char(&mut self)
        requires
            old(self).wf(),
            old(self).cursor() + 2 <= usize::MAX,
        ensures
            final(self).wf(),
            final(self).source() == old(self).source(),
            final(self).verbosity() == old(self).verbosity(),
            final(self).cursor() == old(self).cursor() + 1,
    {
        proof {
            lemma_position_bounds(self.content@, self.cursor());
            lemma_position_bounds(self.content@, self.cursor() + 1);
        }
        if self.read_position >= self.content.len() {
            self.current_char = None;
        } else {
            self.current_char = Some(self.content[self.read_position]);
        }
        self.position = self.read_position;
        self.read_position += 1;
        self.current_column += 1;
        if self.current_char == Some('\n') {
            self.current_line += 1;
            self.current_column = 0;
        }
    }

    /// The character after the current one, or `None` at the end of the
    /// text. The cursor stays where it is.
    pub fn peek_char(&self) -> (next: Option<char>)
        requires
            self.wf(),
        ensures
            next == char_at(self.source(), self.cursor() + 1),
    {
        if self.read_position >= self.content.len() {
            None
        } else {
            Some(self.content[self.read_position])
        }
    }

    /// Moves the cursor one character back. Before the text there is
    /// nothing to go back over, and the cursor stays.
    pub fn backtrack(&mut self)
        requires
            old(self).wf(),
        ensures
            final(self).wf(),
            final(self).source() == old(self).source(),
            final(self).verbosity() == old(self).verbosity(),
            final(self).cursor() == if old(self).cursor() >= 0 {
                old(self).cursor() - 1
            } else {
                -1
            },
    {
        if self.read_position == 0 {
            return;
        }
        let ghost src = self.content@;
        let ghost target = self.cursor() - 1;
        self.read_position -= 1;
        if self.read_position == 0 {
            self.position = 0;
            self.current_char = None;
        } else {
            self.position = self.read_position - 1;
            if self.position < self.content.len() {
                self.current_char = Some(self.content[self.position]);
            } else {
                self.current_char = None;
            }
        }
        if self.current_column == 0 {
            // The cursor left a line break: the line before it is the
            // current one again, and its length so far is counted anew.
            self.current_line -= 1;
            let mut count: usize = 0;
            let mut i: usize = self.read_position;
            while i > 0 && self.content[i - 1] != '\n'
                invariant
                    src == self.content@,
                    0 <= i <= target + 1 <= src.len() <= usize::MAX,
                    count + i == target + 1,
                    column_of(src, target) == count + column_of(src, i - 1),
                decreases i,
            {
                i -= 1;
                count += 1;
            }
            self.current_column = count;
        } else {
            self.current_column -= 1;
        }
    }

    /// The current character, or `None` outside the text.
    pub fn current_char(&self) -> (c: Option<char>)
        requires
            self.wf(),
        ensures
            c == char_at(self.source(), self.cursor()),
    {
        self.current_char
    }

    /// The index of the current character; 0 before the first read.
    pub fn position(&self) -> (p: usize)
        requires
            self.wf(),
        ensures
            p == if self.cursor() < 0 {
                0
            } else {
                self.cursor()
            },
    {
        self.position
    }

    /// The line of the current character.
    pub fn line(&self) -> (l: usize)
        requires
            self.wf(),
        ensures
            l == line_of(self.source(), self.cursor()),
    {
        self.current_line
    }

    /// The column of the current character.
    pub fn column(&self) -> (c: usize)
        requires
            self.wf(),
        ensures
            c == column_of(self.source(), self.cursor()),
    {
        self.current_column
    }

    /// The number of characters in the text.
    pub fn len(&self) -> (n: usize)
        ensures
            n == self.source().len(),
    {
        self.content.len()
    }

    /// The verbosity the scanner was made with: 0 quiet, 1 debug, 2 verbose.
    pub fn mode(&self) -> (m: u8)
        ensures
            m == self.verbosity(),
    {
        self.mode
    }

    /// The characters of the text from index `from` up to index `to`.
    pub fn slice(&self, from: usize, to: usize) -> (run: &[char])
        requires
            from <= to <= self.source().len(),
        ensures
            run@ == self.source().subrange(from as int, to as int),
    {
        vstd::slice::slice_subrange(self.content.as_slice(), from, to)
    }

    /// A well-formed scanner keeps its counters within the machine's range.
    pub proof fn lemma_cursor_bounds(&self)
        requires
            self.wf(),
        ensures
            -1 <= self.cursor() < usize::MAX,
            self.source().len() < usize::MAX,
    {
    }

    /// Whether `c` is a blank: a space, a carriage return or a tab.
    pub fn is_whitespace(c: char) -> (r: bool)
        ensures
            r == is_blank(c),
    {
        c == ' ' || c == '\r' || c == '\t'
    }

    /// Whether `c` is a digit of base 16.
    pub fn is_hexadecimal_digit(c: char) -> (r: bool)
        ensures
            r == is_hex_digit(c),
    {
        (c >= '0' && c <= '9') || (c >= 'a' && c <= 'f') || (c >= 'A' && c <= 'F')
    }

    /// Whether `c` is a digit of base 8.
    pub fn is_octal_digit(c: char) -> (r: bool)
        ensures
            r == is_octal_digit(c),
    {
        c >= '0' && c <= '7'
    }

    /// Whether `c` is a digit of base 2.
    pub fn is_binary_digit(c: char) -> (r: bool)
        ensures
            r == is_binary_digit(c),
    {
        c == '0' || c == '1'
    }
}

} // verus!
