//! The token model: the closed set of token kinds and the token record.

use vstd::prelude::*;
use vstd::string::StringExecFns;
use crate::std_specs::{format_segments, pretty_debug};
use crate::util::{decimal, decimal_string};

verus! {

/// The kind of a token.
#[allow(non_camel_case_types)]
#[derive(Clone, Copy, Debug, PartialEq, Eq, Structural)]
pub enum TokenType {
    NUMBER,
    HEXADECIMAL,
    OCTAL,
    BINARY,
    FLOAT,
    IDENTIFIER,
    STRING,
    CHARACTER,
    LESSEQL,
    GREATEREQL,
    LESS,
    GREATER,
    LEFTSHIFTASSIGN,
    RIGHTSHIFTASSIGN,
    LEFTSHIFT,
    RIGHTSHIFT,
    INCREMENT,
    ADDASSIGN,
    PLUS,
    DECREMENT,
    SUBASSIGN,
    MINUS,
    RIGHTARROW,
    EQL,
    LAMBDA,
    ASSIGN,
    LINECOMMENT,
    BLOCKCOMMENT,
    DIVASSIGN,
    DIVIDE,
    STARASSIGN,
    STAR,
    BANGASSIGN,
    BANG,
    CARROTASSIGN,
    CARROT,
    BITORASSIGN,
    BOOLOR,
    BAR,
    BITANDASSIGN,
    BOOLAND,
    AMPERSAND,
    ATSIGN,
    ANNOTATION,
    HASH,
    MODASSIGN,
    PERCENT,
    SQUIGGLE,
    QUESTION,
    SEMICOLON,
    COLON,
    COMMA,
    DOT,
    LEFTPAREN,
    RIGHTPAREN,
    LEFTBRACE,
    RIGHTBRACE,
    LEFTBRACKET,
    RIGHTBRACKET,
    NEWLINE,
    UNKNOWN,
    EOF,
    ERROR,
}

impl TokenType {
    /// The display name of a token kind.
    pub open spec fn name(self) -> Seq<char> {
        match self {
            TokenType::NUMBER => "NUMBER"@,
            TokenType::HEXADECIMAL => "HEXADECIMAL"@,
            TokenType::OCTAL => "OCTAL"@,
            TokenType::BINARY => "BINARY"@,
            TokenType::FLOAT => "FLOAT"@,
            TokenType::IDENTIFIER => "IDENTIFIER"@,
            TokenType::STRING => "STRING"@,
            TokenType::CHARACTER => "CHARACTER"@,
            TokenType::LESSEQL => "LESS-EQUAL"@,
            TokenType::GREATEREQL => "GREATER-EQUAL"@,
            TokenType::LESS => "LESS"@,
            TokenType::GREATER => "GREATER"@,
            TokenType::LEFTSHIFTASSIGN => "LEFT-SHIFT-ASSIGN"@,
            TokenType::RIGHTSHIFTASSIGN => "RIGHT-SHIFT-ASSIGN"@,
            TokenType::LEFTSHIFT => "LEFT-SHIFT"@,
            TokenType::RIGHTSHIFT => "RIGHT-SHIFT"@,
            TokenType::INCREMENT => "INCREMENT"@,
            TokenType::ADDASSIGN => "ADD-ASSIGN"@,
            TokenType::PLUS => "PLUS"@,
            TokenType::DECREMENT => "DECREMENT"@,
            TokenType::SUBASSIGN => "SUB-ASSIGN"@,
            TokenType::MINUS => "MINUS"@,
            TokenType::RIGHTARROW => "RIGHT-ARROW"@,
            TokenType::EQL => "EQUALS"@,
            TokenType::LAMBDA => "LAMBDA"@,
            TokenType::ASSIGN => "ASSIGN"@,
            TokenType::LINECOMMENT => "LINE-COMMENT"@,
            TokenType::BLOCKCOMMENT => "BLOCK-COMMENT"@,
            TokenType::DIVASSIGN => "DIVIDE-ASSIGN"@,
            TokenType::DIVIDE => "DIVIDE"@,
            TokenType::STARASSIGN => "STAR-ASSIGN"@,
            TokenType::STAR => "STAR"@,
            TokenType::BANGASSIGN => "BANG-ASSIGN"@,
            TokenType::BANG => "BANG"@,
            TokenType::CARROTASSIGN => "CARROT-ASSIGN"@,
            TokenType::CARROT => "CARROT"@,
            TokenType::BITORASSIGN => "BITWISE-OR-ASSIGN"@,
            TokenType::BOOLOR => "BOOLEAN OR"@,
            TokenType::BAR => "BAR"@,
            TokenType::BITANDASSIGN => "BITWISE-AND-ASSIGN"@,
            TokenType::BOOLAND => "BOOLEAN AND"@,
            TokenType::AMPERSAND => "AMPERSAND"@,
            TokenType::ATSIGN => "ATSIGN"@,
            TokenType::ANNOTATION => "ANNOTATION"@,
            TokenType::HASH => "HASH"@,
            TokenType::MODASSIGN => "MODULO-ASSIGN"@,
            TokenType::PERCENT => "PERCENT"@,
            TokenType::SQUIGGLE => "SQUIGGLE"@,
            TokenType::QUESTION => "QUESTION"@,
            TokenType::SEMICOLON => "SEMI-COLON"@,
            TokenType::COLON => "COLON"@,
            TokenType::COMMA => "COMMA"@,
            TokenType::DOT => "DOT"@,
            TokenType::LEFTPAREN => "LEFT-PAREN"@,
            TokenType::RIGHTPAREN => "RIGHT-PAREN"@,
            TokenType::LEFTBRACE => "LEFT-BRACE"@,
            TokenType::RIGHTBRACE => "RIGHT-BRACE"@,
            TokenType::LEFTBRACKET => "LEFT-BRACKET"@,
            TokenType::RIGHTBRACKET => "RIGHT-BRACKET"@,
            TokenType::NEWLINE => "NEWLINE"@,
            TokenType::UNKNOWN => "UNKNOWN"@,
            TokenType::EOF => "EOF"@,
            TokenType::ERROR => "ERROR"@,
        }
    }

    /// Renders the display name of the kind.
    pub fn to_string(&self) -> (s: String)
        ensures
            s@ == self.name(),
    {
        match self {
            TokenType::NUMBER => "NUMBER".to_owned(),
            TokenType::HEXADECIMAL => "HEXADECIMAL".to_owned(),
            TokenType::OCTAL => "OCTAL".to_owned(),
            TokenType::BINARY => "BINARY".to_owned(),
            TokenType::FLOAT => "FLOAT".to_owned(),
            TokenType::IDENTIFIER => "IDENTIFIER".to_owned(),
            TokenType::STRING => "STRING".to_owned(),
            TokenType::CHARACTER => "CHARACTER".to_owned(),
            TokenType::LESSEQL => "LESS-EQUAL".to_owned(),
            TokenType::GREATEREQL => "GREATER-EQUAL".to_owned(),
            TokenType::LESS => "LESS".to_owned(),
            TokenType::GREATER => "GREATER".to_owned(),
            TokenType::LEFTSHIFTASSIGN => "LEFT-SHIFT-ASSIGN".to_owned(),
            TokenType::RIGHTSHIFTASSIGN => "RIGHT-SHIFT-ASSIGN".to_owned(),
            TokenType::LEFTSHIFT => "LEFT-SHIFT".to_owned(),
            TokenType::RIGHTSHIFT => "RIGHT-SHIFT".to_owned(),
            TokenType::INCREMENT => "INCREMENT".to_owned(),
            TokenType::ADDASSIGN => "ADD-ASSIGN".to_owned(),
            TokenType::PLUS => "PLUS".to_owned(),
            TokenType::DECREMENT => "DECREMENT".to_owned(),
            TokenType::SUBASSIGN => "SUB-ASSIGN".to_owned(),
            TokenType::MINUS => "MINUS".to_owned(),
            TokenType::RIGHTARROW => "RIGHT-ARROW".to_owned(),
            TokenType::EQL => "EQUALS".to_owned(),
            TokenType::LAMBDA => "LAMBDA".to_owned(),
            TokenType::ASSIGN => "ASSIGN".to_owned(),
            TokenType::LINECOMMENT => "LINE-COMMENT".to_owned(),
            TokenType::BLOCKCOMMENT => "BLOCK-COMMENT".to_owned(),
            TokenType::DIVASSIGN => "DIVIDE-ASSIGN".to_owned(),
            TokenType::DIVIDE => "DIVIDE".to_owned(),
            TokenType::STARASSIGN => "STAR-ASSIGN".to_owned(),
            TokenType::STAR => "STAR".to_owned(),
            TokenType::BANGASSIGN => "BANG-ASSIGN".to_owned(),
            TokenType::BANG => "BANG".to_owned(),
            TokenType::CARROTASSIGN => "CARROT-ASSIGN".to_owned(),
            TokenType::CARROT => "CARROT".to_owned(),
            TokenType::BITORASSIGN => "BITWISE-OR-ASSIGN".to_owned(),
            TokenType::BOOLOR => "BOOLEAN OR".to_owned(),
            TokenType::BAR => "BAR".to_owned(),
            TokenType::BITANDASSIGN => "BITWISE-AND-ASSIGN".to_owned(),
            TokenType::BOOLAND => "BOOLEAN AND".to_owned(),
            TokenType::AMPERSAND => "AMPERSAND".to_owned(),
            TokenType::ATSIGN => "ATSIGN".to_owned(),
            TokenType::ANNOTATION => "ANNOTATION".to_owned(),
            TokenType::HASH => "HASH".to_owned(),
            TokenType::MODASSIGN => "MODULO-ASSIGN".to_owned(),
            TokenType::PERCENT => "PERCENT".to_owned(),
            TokenType::SQUIGGLE => "SQUIGGLE".to_owned(),
            TokenType::QUESTION => "QUESTION".to_owned(),
            TokenType::SEMICOLON => "SEMI-COLON".to_owned(),
            TokenType::COLON => "COLON".to_owned(),
            TokenType::COMMA => "COMMA".to_owned(),
            TokenType::DOT => "DOT".to_owned(),
            TokenType::LEFTPAREN => "LEFT-PAREN".to_owned(),
            TokenType::RIGHTPAREN => "RIGHT-PAREN".to_owned(),
            TokenType::LEFTBRACE => "LEFT-BRACE".to_owned(),
            TokenType::RIGHTBRACE => "RIGHT-BRACE".to_owned(),
            TokenType::LEFTBRACKET => "LEFT-BRACKET".to_owned(),
            TokenType::RIGHTBRACKET => "RIGHT-BRACKET".to_owned(),
            TokenType::NEWLINE => "NEWLINE".to_owned(),
            TokenType::UNKNOWN => "UNKNOWN".to_owned(),
            TokenType::EOF => "EOF".to_owned(),
            TokenType::ERROR => "ERROR".to_owned(),
        }
    }
}

/// The spans that a token sets aside, each as a sequence of characters.
pub open spec fn segments_of(metadata: Seq<Vec<char>>) -> Seq<Seq<char>> {
    Seq::new(metadata.len(), |i: int| metadata[i]@)
}

/// What a token is, as mathematical values.
pub struct TokenView {
    pub kind: TokenType,
    pub lexeme: Seq<char>,
    pub metadata: Seq<Seq<char>>,
    pub line: nat,
    pub column: nat,
}

/// A token: its kind, its text, the raw spans set aside for later parsing
/// (interpolation segments of a string, the body of an annotation), and the
/// line and column of its first character.
#[derive(Debug, PartialEq, Eq)]
pub struct LexerToken {
    pub token_type: TokenType,
    pub value: String,
    pub metadata: Vec<Vec<char>>,
    pub line: usize,
    pub column: usize,
}

impl View for LexerToken {
    type V = TokenView;

    open spec fn view(&self) -> TokenView {
        TokenView {
            kind: self.token_type,
            lexeme: self.value@,
            metadata: segments_of(self.metadata@),
            line: self.line as nat,
            column: self.column as nat,
        }
    }
}

/// The text a token is shown with, given the text that its spans are
/// shown with: kind, text and position on one line, and below it, if the
/// token set spans aside, the text of the spans.
pub open spec fn token_text_with(token: TokenView, segments_text: Seq<char>) -> Seq<char> {
    let head = token.kind.name() + ": "@ + token.lexeme + " (Line: "@ + decimal(token.line)
        + ", Column: "@ + decimal(token.column) + ")"@;
    if token.metadata.len() == 0 {
        head
    } else {
        head + "\nMetadata: "@ + segments_text
    }
}

/// The text a token is shown with; its spans are shown in their debug form.
pub open spec fn token_text(token: TokenView) -> Seq<char> {
    token_text_with(token, pretty_debug(token.metadata))
}

impl LexerToken {
    /// Renders the token, with `segments_text` for its spans if it has any.
    pub fn render(&self, segments_text: &str) -> (s: String)
        ensures
            s@ == token_text_with(self@, segments_text@),
    {
        let mut s = self.token_type.to_string();
        s.append(": ");
        s.append(self.value.as_str());
        s.append(" (Line: ");
        s.append(decimal_string(self.line).as_str());
        s.append(", Column: ");
        s.append(decimal_string(self.column).as_str());
        s.append(")");
        if !self.metadata.is_empty() {
            s.append("\nMetadata: ");
            s.append(segments_text);
        }
        s
    }

    /// Renders the token as it is shown.
    pub fn to_string(&self) -> (s: String)
        ensures
            s@ == token_text(self@),
    {
        if self.metadata.is_empty() {
            self.render("")
        } else {
            let segments_text = format_segments(&self.metadata);
            self.render(segments_text.as_str())
        }
    }
}

impl Clone for LexerToken {
    /// The copy is the same token.
    fn clone(&self) -> (copy: LexerToken)
        ensures
            copy@ == self@,
    {
        let metadata = self.metadata.clone();
        assert(segments_of(metadata@) =~= segments_of(self.metadata@)) by {
            assert forall|i: int| 0 <= i < metadata.len() implies metadata@[i]@
                == self.metadata@[i]@ by {
                assert(cloned::<Vec<char>>(self.metadata@[i], metadata@[i]));
                assert(metadata@[i]@ =~= self.metadata@[i]@);
            }
        }
        LexerToken {
            token_type: self.token_type,
            value: self.value.clone(),
            metadata,
            line: self.line,
            column: self.column,
        }
    }
}

impl DeepView for LexerToken {
    type V = TokenView;

    open spec fn deep_view(&self) -> TokenView {
        self@
    }
}

impl Default for LexerToken {
    /// The default token is an empty ERROR token at line 0, column 0.
    fn default() -> (t: LexerToken)
        ensures
            t@ == (TokenView {
                kind: TokenType::ERROR,
                lexeme: Seq::empty(),
                metadata: Seq::empty(),
                line: 0,
                column: 0,
            }),
    {
        let t = LexerToken {
            token_type: TokenType::ERROR,
            value: String::new(),
            metadata: Vec::new(),
            line: 0,
            column: 0,
        };
        assert(segments_of(t.metadata@) =~= Seq::<Seq<char>>::empty());
        t
    }
}

} // verus!
