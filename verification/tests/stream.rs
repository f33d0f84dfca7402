use apollo::lexer::Lexer;
use apollo::parser::Parser;
use apollo::token::{LexerToken, TokenType};

fn scan(source: &str) -> Vec<LexerToken> {
    let mut lexer = Lexer::new(source, 0);
    match lexer.begin() {
        Ok(tokens) => tokens,
        Err(error) => panic!("{}", error.to_string()),
    }
}

fn count_eof(tokens: &[LexerToken]) -> usize {
    tokens.iter().filter(|token| token.token_type == TokenType::EOF).count()
}

#[test]
fn empty_text_gives_only_the_end_of_input() {
    let tokens = scan("");
    assert_eq!(tokens.len(), 1);
    assert_eq!(tokens[0].token_type, TokenType::EOF);
    assert_eq!(tokens[0].value, "");
    assert_eq!(tokens[0].metadata, Vec::<Vec<char>>::new());
    assert_eq!(tokens[0].line, 1);
    assert_eq!(tokens[0].column, 1);
}

#[test]
fn blank_text_gives_only_the_end_of_input() {
    let tokens = scan(" \t\r ");
    assert_eq!(tokens.len(), 1);
    assert_eq!(tokens[0].token_type, TokenType::EOF);
    assert_eq!(tokens[0].line, 1);
    assert_eq!(tokens[0].column, 5);
}

#[test]
fn scan_ends_with_exactly_one_end_of_input() {
    for source in [
        "",
        "x",
        "a b c",
        "x   ",
        "1 + 2\n",
        "\"open",
        "/* open",
        "'ab'",
        "0x1G $ #[",
        "// c",
    ] {
        let tokens = scan(source);
        assert!(!tokens.is_empty());
        assert_eq!(tokens[tokens.len() - 1].token_type, TokenType::EOF, "{}", source);
        assert_eq!(count_eof(&tokens), 1, "{}", source);
    }
}

#[test]
fn end_of_input_is_placed_after_the_last_character() {
    let tokens = scan("ab");
    assert_eq!(tokens[1].line, 1);
    assert_eq!(tokens[1].column, 3);
    let tokens = scan("ab\n");
    assert_eq!(tokens[2].token_type, TokenType::EOF);
    assert_eq!(tokens[2].line, 2);
    assert_eq!(tokens[2].column, 1);
    let tokens = scan("ab\ncd");
    assert_eq!(tokens[3].token_type, TokenType::EOF);
    assert_eq!(tokens[3].line, 2);
    assert_eq!(tokens[3].column, 3);
    let tokens = scan("a\n\n\n  ");
    assert_eq!(tokens[4].token_type, TokenType::EOF);
    assert_eq!(tokens[4].line, 4);
    assert_eq!(tokens[4].column, 3);
}

#[test]
fn end_of_input_after_an_open_literal() {
    let tokens = scan("x\n\"ab\ncd");
    assert_eq!(tokens.len(), 4);
    assert_eq!(tokens[2].token_type, TokenType::STRING);
    assert_eq!(tokens[3].token_type, TokenType::EOF);
    assert_eq!(tokens[3].line, 3);
    assert_eq!(tokens[3].column, 3);
}

#[test]
fn begin_leaves_the_cursor_at_the_end() {
    let mut lexer = Lexer::new("a + b", 0);
    assert!(lexer.begin().is_ok());
    assert_eq!(lexer.current_char(), None);
    assert_eq!(lexer.position(), 5);
}

#[test]
fn begin_again_gives_only_the_end_of_input() {
    let mut lexer = Lexer::new("a + b", 0);
    assert!(lexer.begin().is_ok());
    let again = match lexer.begin() {
        Ok(tokens) => tokens,
        Err(error) => panic!("{}", error.to_string()),
    };
    assert_eq!(again.len(), 1);
    assert_eq!(again[0].token_type, TokenType::EOF);
    assert_eq!(again[0].column, 6);
}

#[test]
fn line_break_is_a_token() {
    let tokens = scan("a\nb");
    assert_eq!(tokens.len(), 4);
    assert_eq!(tokens[1].token_type, TokenType::NEWLINE);
    assert_eq!(tokens[1].value, "\\n");
    assert_eq!(tokens[1].line, 2);
    assert_eq!(tokens[1].column, 0);
    assert_eq!(tokens[2].value, "b");
    assert_eq!(tokens[2].line, 2);
    assert_eq!(tokens[2].column, 1);
}

#[test]
fn carriage_return_before_line_break_is_passed_over() {
    let tokens = scan("a\r\nb");
    assert_eq!(tokens.len(), 4);
    assert_eq!(tokens[0].value, "a");
    assert_eq!(tokens[1].token_type, TokenType::NEWLINE);
    assert_eq!(tokens[2].value, "b");
}

#[test]
fn blanks_are_passed_over() {
    let tokens = scan("  \t a \r\t b  ");
    assert_eq!(tokens.len(), 3);
    assert_eq!(tokens[0].value, "a");
    assert_eq!(tokens[0].column, 5);
    assert_eq!(tokens[1].value, "b");
    assert_eq!(tokens[1].column, 10);
    assert_eq!(tokens[2].token_type, TokenType::EOF);
    assert_eq!(tokens[2].column, 13);
}

#[test]
fn many_blank_lines_do_not_exhaust_the_stack() {
    let source: String = "\n".repeat(200_000) + &" ".repeat(200_000);
    let tokens = scan(&source);
    assert_eq!(tokens.len(), 200_001);
    assert_eq!(tokens[199_999].token_type, TokenType::NEWLINE);
    assert_eq!(tokens[200_000].token_type, TokenType::EOF);
    assert_eq!(tokens[200_000].line, 200_001);
    assert_eq!(tokens[200_000].column, 200_001);
}

#[test]
fn next_token_moves_past_the_token() {
    let mut lexer = Lexer::new("ab <= 1", 0);
    let first = lexer.next_token().unwrap();
    assert_eq!(first.token_type, TokenType::IDENTIFIER);
    assert_eq!(lexer.current_char(), Some(' '));
    assert_eq!(lexer.position(), 2);
    let second = lexer.next_token().unwrap();
    assert_eq!(second.token_type, TokenType::LESSEQL);
    assert_eq!(second.column, 4);
    assert_eq!(lexer.position(), 5);
    let third = lexer.next_token().unwrap();
    assert_eq!(third.token_type, TokenType::NUMBER);
    assert_eq!(lexer.current_char(), None);
    assert_eq!(lexer.position(), 7);
}

#[test]
fn next_token_at_the_end_repeats_the_end_of_input() {
    let mut lexer = Lexer::new("x", 0);
    assert_eq!(lexer.next_token().unwrap().token_type, TokenType::IDENTIFIER);
    let first = lexer.next_token().unwrap();
    let second = lexer.next_token().unwrap();
    assert_eq!(first.token_type, TokenType::EOF);
    assert_eq!(first, second);
    assert_eq!(lexer.position(), 1);
    assert_eq!(first.line, 1);
    assert_eq!(first.column, 2);
}

#[test]
fn next_token_before_the_text_is_the_end_of_input() {
    let mut lexer = Lexer::new("x", 0);
    lexer.backtrack();
    let token = lexer.next_token().unwrap();
    assert_eq!(token.token_type, TokenType::EOF);
    assert_eq!(token.line, 1);
    assert_eq!(token.column, 0);
    assert_eq!(lexer.current_char(), None);
    assert_eq!(lexer.position(), 0);
}

#[test]
fn begin_from_the_middle_scans_the_rest() {
    let mut lexer = Lexer::new("a b c", 0);
    lexer.read_char();
    lexer.read_char();
    let tokens = match lexer.begin() {
        Ok(tokens) => tokens,
        Err(error) => panic!("{}", error.to_string()),
    };
    assert_eq!(tokens.len(), 3);
    assert_eq!(tokens[0].value, "b");
    assert_eq!(tokens[0].column, 3);
    assert_eq!(tokens[1].value, "c");
    assert_eq!(tokens[2].token_type, TokenType::EOF);
}

fn written(token: &LexerToken, closed: bool) -> String {
    let mut text = String::new();
    match token.token_type {
        TokenType::STRING => {
            text.push('"');
            let mut segments = token.metadata.iter();
            for c in token.value.chars() {
                text.push(c);
                if c == '{' {
                    if let Some(segment) = segments.next() {
                        text.extend(segment.iter());
                    }
                }
            }
            if closed {
                text.push('"');
            }
        }
        TokenType::CHARACTER => {
            text.push('\'');
            text.push_str(&token.value);
            if closed {
                text.push('\'');
            }
        }
        TokenType::LINECOMMENT => {
            text.push_str("//");
            text.push_str(&token.value);
            if closed {
                text.push('\n');
            }
        }
        TokenType::BLOCKCOMMENT => {
            text.push_str("/*");
            text.push_str(&token.value);
            if closed {
                text.push_str("*/");
            }
        }
        TokenType::ANNOTATION => {
            text.push_str("#[");
            text.extend(token.metadata[0].iter());
            if closed {
                text.push(']');
            }
        }
        TokenType::NEWLINE => text.push('\n'),
        TokenType::EOF => {}
        _ => text.push_str(&token.value),
    }
    text
}

#[test]
fn tokens_written_out_give_the_text_back() {
    let source = "#[entry]fn(x){y=\"a{x+1}b{}\";/*c*/z>>=0x1F;'q';w=1.5f;}//end\n$";
    let tokens = scan(source);
    let mut text = String::new();
    for token in &tokens {
        text.push_str(&written(token, true));
    }
    assert_eq!(text, source);
}

#[test]
fn tokens_written_out_give_the_text_back_but_for_blanks() {
    let source = "let  x\t= \"s {a}\" ; // note\r\n  y <<= 'c'\n/* open";
    let tokens = scan(source);
    let mut text = String::new();
    let last = tokens.len() - 2;
    for (i, token) in tokens.iter().enumerate() {
        text.push_str(&written(token, i != last));
    }
    let kept: String = source.chars().filter(|c| !Lexer::is_whitespace(*c)).collect();
    let written_kept: String = text.chars().filter(|c| !Lexer::is_whitespace(*c)).collect();
    assert_eq!(written_kept, kept);
}

#[test]
fn parser_stands_on_the_first_token() {
    let tokens = scan("a b");
    let first = tokens[0].clone();
    let parser = Parser::new(tokens, 0);
    assert_eq!(parser.current_token(), Some(&first));
}

#[test]
fn parser_over_no_tokens_stands_on_none() {
    let parser = Parser::new(Vec::new(), 0);
    assert_eq!(parser.current_token(), None);
}

#[test]
fn clone_of_a_token_is_the_same_token() {
    let tokens = scan("\"a{b}c\"");
    let copy = tokens[0].clone();
    assert_eq!(copy, tokens[0]);
    assert_eq!(copy.metadata, vec![vec!['b']]);
}
