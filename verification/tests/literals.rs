use apollo::lexer::Lexer;
use apollo::scanner::{classify_number, continues_identifier};
use apollo::token::{LexerToken, TokenType};

fn scan(source: &str) -> Vec<LexerToken> {
    let mut lexer = Lexer::new(source, 0);
    match lexer.begin() {
        Ok(tokens) => tokens,
        Err(error) => panic!("{}", error.to_string()),
    }
}

fn kind_of(run: &str) -> TokenType {
    let chars: Vec<char> = run.chars().collect();
    classify_number(&chars)
}

fn no_segments() -> Vec<Vec<char>> {
    Vec::new()
}

#[test]
fn decimal_number_is_one_token() {
    let tokens = scan("123");
    assert_eq!(tokens.len(), 2);
    assert_eq!(tokens[0].token_type, TokenType::NUMBER);
    assert_eq!(tokens[0].value, "123");
    assert_eq!(tokens[0].metadata, no_segments());
    assert_eq!(tokens[0].line, 1);
    assert_eq!(tokens[0].column, 1);
    assert_eq!(tokens[1].token_type, TokenType::EOF);
}

#[test]
fn hexadecimal_number_is_one_token() {
    let tokens = scan("0x1F");
    assert_eq!(tokens.len(), 2);
    assert_eq!(tokens[0].token_type, TokenType::HEXADECIMAL);
    assert_eq!(tokens[0].value, "0x1F");
    assert_eq!(tokens[1].token_type, TokenType::EOF);
}

#[test]
fn hexadecimal_number_with_bad_digit_is_one_error() {
    let tokens = scan("0x1G");
    assert_eq!(tokens.len(), 2);
    assert_eq!(tokens[0].token_type, TokenType::ERROR);
    assert_eq!(tokens[0].value, "0x1G");
    assert_eq!(tokens[1].token_type, TokenType::EOF);
}

#[test]
fn scanning_goes_on_after_a_bad_number() {
    let tokens = scan("0b12 + 7");
    assert_eq!(tokens.len(), 4);
    assert_eq!(tokens[0].token_type, TokenType::ERROR);
    assert_eq!(tokens[0].value, "0b12");
    assert_eq!(tokens[1].token_type, TokenType::PLUS);
    assert_eq!(tokens[2].token_type, TokenType::NUMBER);
    assert_eq!(tokens[2].value, "7");
    assert_eq!(tokens[3].token_type, TokenType::EOF);
}

#[test]
fn number_kinds_by_prefix_and_suffix() {
    assert_eq!(kind_of("0"), TokenType::NUMBER);
    assert_eq!(kind_of("42"), TokenType::NUMBER);
    assert_eq!(kind_of("1.5"), TokenType::NUMBER);
    assert_eq!(kind_of("012"), TokenType::NUMBER);
    assert_eq!(kind_of("0xff"), TokenType::HEXADECIMAL);
    assert_eq!(kind_of("0xAbC09"), TokenType::HEXADECIMAL);
    assert_eq!(kind_of("0x1f"), TokenType::HEXADECIMAL);
    assert_eq!(kind_of("0xg"), TokenType::ERROR);
    assert_eq!(kind_of("0o17"), TokenType::OCTAL);
    assert_eq!(kind_of("0o18"), TokenType::ERROR);
    assert_eq!(kind_of("0b101"), TokenType::BINARY);
    assert_eq!(kind_of("0b102"), TokenType::ERROR);
    assert_eq!(kind_of("0b1f"), TokenType::ERROR);
    assert_eq!(kind_of("1.5f"), TokenType::FLOAT);
    assert_eq!(kind_of("0.5f"), TokenType::FLOAT);
    assert_eq!(kind_of("3f"), TokenType::FLOAT);
    assert_eq!(kind_of("0f"), TokenType::FLOAT);
    assert_eq!(kind_of("1.f"), TokenType::FLOAT);
    assert_eq!(kind_of("1.2.3f"), TokenType::ERROR);
    assert_eq!(kind_of("1a.5f"), TokenType::ERROR);
    assert_eq!(kind_of("1ff"), TokenType::ERROR);
}

#[test]
fn radix_marker_needs_a_leading_zero_and_no_dot() {
    assert_eq!(kind_of("1x1"), TokenType::NUMBER);
    assert_eq!(kind_of("0x.1"), TokenType::NUMBER);
    assert_eq!(kind_of("0x1.f"), TokenType::ERROR);
    assert_eq!(kind_of("0x"), TokenType::HEXADECIMAL);
}

#[test]
fn number_kind_of_empty_run_is_number() {
    assert_eq!(kind_of(""), TokenType::NUMBER);
}

#[test]
fn float_is_one_token_with_its_text() {
    let tokens = scan("3.25f;");
    assert_eq!(tokens.len(), 3);
    assert_eq!(tokens[0].token_type, TokenType::FLOAT);
    assert_eq!(tokens[0].value, "3.25f");
    assert_eq!(tokens[1].token_type, TokenType::SEMICOLON);
}

#[test]
fn number_run_stops_at_an_operator() {
    let tokens = scan("12+0o7");
    assert_eq!(tokens.len(), 4);
    assert_eq!(tokens[0].value, "12");
    assert_eq!(tokens[1].token_type, TokenType::PLUS);
    assert_eq!(tokens[2].token_type, TokenType::OCTAL);
    assert_eq!(tokens[2].value, "0o7");
    assert_eq!(tokens[2].column, 4);
}

#[test]
fn identifier_takes_letters_digits_and_underscores() {
    let tokens = scan("_foo_1 bar");
    assert_eq!(tokens.len(), 3);
    assert_eq!(tokens[0].token_type, TokenType::IDENTIFIER);
    assert_eq!(tokens[0].value, "_foo_1");
    assert_eq!(tokens[0].column, 1);
    assert_eq!(tokens[1].token_type, TokenType::IDENTIFIER);
    assert_eq!(tokens[1].value, "bar");
    assert_eq!(tokens[1].column, 8);
}

#[test]
fn identifier_goes_on_over_unicode_letters() {
    let tokens = scan("naïve1+x");
    assert_eq!(tokens.len(), 4);
    assert_eq!(tokens[0].token_type, TokenType::IDENTIFIER);
    assert_eq!(tokens[0].value, "naïve1");
    assert_eq!(tokens[1].token_type, TokenType::PLUS);
    assert_eq!(tokens[2].value, "x");
}

#[test]
fn identifier_stops_at_a_character_that_is_not_alphanumeric() {
    let tokens = scan("ab-cd");
    assert_eq!(tokens.len(), 4);
    assert_eq!(tokens[0].value, "ab");
    assert_eq!(tokens[1].token_type, TokenType::MINUS);
    assert_eq!(tokens[2].value, "cd");
}

#[test]
fn unicode_letter_does_not_start_an_identifier() {
    let tokens = scan("é");
    assert_eq!(tokens.len(), 2);
    assert_eq!(tokens[0].token_type, TokenType::UNKNOWN);
    assert_eq!(tokens[0].value, "é");
}

#[test]
fn keywords_are_identifiers() {
    let tokens = scan("while");
    assert_eq!(tokens[0].token_type, TokenType::IDENTIFIER);
    assert_eq!(tokens[0].value, "while");
}

#[test]
fn string_with_interpolation_sets_the_segment_aside() {
    let tokens = scan("\"a{b}c\"");
    assert_eq!(tokens.len(), 2);
    assert_eq!(tokens[0].token_type, TokenType::STRING);
    assert_eq!(tokens[0].value, "a{}c");
    assert_eq!(tokens[0].metadata, vec![vec!['b']]);
    assert_eq!(tokens[0].line, 1);
    assert_eq!(tokens[0].column, 1);
    assert_eq!(tokens[1].token_type, TokenType::EOF);
}

#[test]
fn plain_string_has_no_segments() {
    let tokens = scan("\"hello world\" x");
    assert_eq!(tokens.len(), 3);
    assert_eq!(tokens[0].token_type, TokenType::STRING);
    assert_eq!(tokens[0].value, "hello world");
    assert_eq!(tokens[0].metadata, no_segments());
    assert_eq!(tokens[1].token_type, TokenType::IDENTIFIER);
    assert_eq!(tokens[1].value, "x");
    assert_eq!(tokens[1].column, 15);
}

#[test]
fn empty_string_is_a_token() {
    let tokens = scan("\"\"");
    assert_eq!(tokens.len(), 2);
    assert_eq!(tokens[0].token_type, TokenType::STRING);
    assert_eq!(tokens[0].value, "");
}

#[test]
fn string_segments_come_in_order() {
    let tokens = scan("\"{x + 1} and {}!\"");
    assert_eq!(tokens[0].value, "{} and {}!");
    assert_eq!(tokens[0].metadata, vec![vec!['x', ' ', '+', ' ', '1'], vec![]]);
}

#[test]
fn string_braces_do_not_nest() {
    let tokens = scan("\"{a{b}c}\"");
    assert_eq!(tokens[0].token_type, TokenType::STRING);
    assert_eq!(tokens[0].value, "{}c}");
    assert_eq!(tokens[0].metadata, vec![vec!['a', '{', 'b']]);
}

#[test]
fn quote_inside_a_segment_does_not_end_the_string() {
    let tokens = scan("\"{f(\"x\")}\" y");
    assert_eq!(tokens.len(), 3);
    assert_eq!(tokens[0].value, "{}");
    assert_eq!(tokens[0].metadata, vec![vec!['f', '(', '"', 'x', '"', ')']]);
    assert_eq!(tokens[1].value, "y");
}

#[test]
fn string_without_closing_quote_runs_to_the_end() {
    let tokens = scan("\"abc");
    assert_eq!(tokens.len(), 2);
    assert_eq!(tokens[0].token_type, TokenType::STRING);
    assert_eq!(tokens[0].value, "abc");
    assert_eq!(tokens[1].token_type, TokenType::EOF);
}

#[test]
fn segment_without_closing_brace_runs_to_the_end() {
    let tokens = scan("\"a{bc\"");
    assert_eq!(tokens.len(), 2);
    assert_eq!(tokens[0].token_type, TokenType::STRING);
    assert_eq!(tokens[0].value, "a{");
    assert_eq!(tokens[0].metadata, vec![vec!['b', 'c', '"']]);
}

#[test]
fn string_may_span_lines() {
    let tokens = scan("\"a\nb\" c");
    assert_eq!(tokens.len(), 3);
    assert_eq!(tokens[0].value, "a\nb");
    assert_eq!(tokens[0].line, 1);
    assert_eq!(tokens[0].column, 1);
    assert_eq!(tokens[1].value, "c");
    assert_eq!(tokens[1].line, 2);
    assert_eq!(tokens[1].column, 4);
}

#[test]
fn character_literal_holds_one_character() {
    let tokens = scan("'a'");
    assert_eq!(tokens.len(), 2);
    assert_eq!(tokens[0].token_type, TokenType::CHARACTER);
    assert_eq!(tokens[0].value, "a");
    assert_eq!(tokens[0].metadata, no_segments());
}

#[test]
fn character_literal_counts_characters_not_bytes() {
    let tokens = scan("'é'");
    assert_eq!(tokens[0].token_type, TokenType::CHARACTER);
    assert_eq!(tokens[0].value, "é");
}

#[test]
fn character_literal_of_two_characters_is_an_error() {
    let tokens = scan("'ab'");
    assert_eq!(tokens.len(), 2);
    assert_eq!(tokens[0].token_type, TokenType::ERROR);
    assert_eq!(tokens[0].value, "'ab'");
    assert_eq!(tokens[0].line, 1);
    assert_eq!(tokens[0].column, 1);
    assert_eq!(tokens[1].token_type, TokenType::EOF);
}

#[test]
fn empty_character_literal_is_an_error() {
    let tokens = scan("'' x");
    assert_eq!(tokens.len(), 3);
    assert_eq!(tokens[0].token_type, TokenType::ERROR);
    assert_eq!(tokens[0].value, "''");
    assert_eq!(tokens[1].token_type, TokenType::IDENTIFIER);
}

#[test]
fn scanning_goes_on_after_a_bad_character_literal() {
    let tokens = scan("'ab' 'c'");
    assert_eq!(tokens.len(), 3);
    assert_eq!(tokens[0].token_type, TokenType::ERROR);
    assert_eq!(tokens[1].token_type, TokenType::CHARACTER);
    assert_eq!(tokens[1].value, "c");
    assert_eq!(tokens[1].column, 6);
}

#[test]
fn escaped_character_literal_keeps_its_text() {
    let tokens = scan("'\\n'");
    assert_eq!(tokens.len(), 2);
    assert_eq!(tokens[0].token_type, TokenType::CHARACTER);
    assert_eq!(tokens[0].value, "\\n");
}

#[test]
fn escaped_character_literal_may_be_long() {
    let tokens = scan("'\\u1F600'");
    assert_eq!(tokens[0].token_type, TokenType::CHARACTER);
    assert_eq!(tokens[0].value, "\\u1F600");
}

#[test]
fn character_literal_without_closing_quote_runs_to_the_end() {
    let tokens = scan("'a");
    assert_eq!(tokens.len(), 2);
    assert_eq!(tokens[0].token_type, TokenType::CHARACTER);
    assert_eq!(tokens[0].value, "a");
    let tokens = scan("'ab");
    assert_eq!(tokens.len(), 2);
    assert_eq!(tokens[0].token_type, TokenType::ERROR);
    assert_eq!(tokens[0].value, "'ab");
    let tokens = scan("'");
    assert_eq!(tokens.len(), 2);
    assert_eq!(tokens[0].token_type, TokenType::ERROR);
    assert_eq!(tokens[0].value, "'");
}

#[test]
fn line_comment_runs_to_the_end_of_the_line() {
    let tokens = scan("// hi there\nx");
    assert_eq!(tokens.len(), 3);
    assert_eq!(tokens[0].token_type, TokenType::LINECOMMENT);
    assert_eq!(tokens[0].value, " hi there");
    assert_eq!(tokens[0].line, 1);
    assert_eq!(tokens[0].column, 1);
    assert_eq!(tokens[1].token_type, TokenType::IDENTIFIER);
    assert_eq!(tokens[1].line, 2);
    assert_eq!(tokens[1].column, 1);
}

#[test]
fn line_comment_drops_carriage_returns() {
    let tokens = scan("//a\rb\r\nc");
    assert_eq!(tokens.len(), 3);
    assert_eq!(tokens[0].token_type, TokenType::LINECOMMENT);
    assert_eq!(tokens[0].value, "ab");
    assert_eq!(tokens[1].value, "c");
}

#[test]
fn line_comment_at_the_end_of_input() {
    let tokens = scan("x //tail");
    assert_eq!(tokens.len(), 3);
    assert_eq!(tokens[1].token_type, TokenType::LINECOMMENT);
    assert_eq!(tokens[1].value, "tail");
    assert_eq!(tokens[1].column, 3);
    assert_eq!(tokens[2].token_type, TokenType::EOF);
}

#[test]
fn empty_line_comment() {
    let tokens = scan("//\n//");
    assert_eq!(tokens.len(), 3);
    assert_eq!(tokens[0].token_type, TokenType::LINECOMMENT);
    assert_eq!(tokens[0].value, "");
    assert_eq!(tokens[1].token_type, TokenType::LINECOMMENT);
    assert_eq!(tokens[1].value, "");
    assert_eq!(tokens[1].line, 2);
}

#[test]
fn block_comment_runs_through_its_end_mark() {
    let tokens = scan("/* a\n * b */x");
    assert_eq!(tokens.len(), 3);
    assert_eq!(tokens[0].token_type, TokenType::BLOCKCOMMENT);
    assert_eq!(tokens[0].value, " a\n * b ");
    assert_eq!(tokens[1].token_type, TokenType::IDENTIFIER);
    assert_eq!(tokens[1].value, "x");
    assert_eq!(tokens[1].line, 2);
    assert_eq!(tokens[1].column, 8);
}

#[test]
fn block_comment_keeps_stars_and_slashes_inside() {
    let tokens = scan("/***/+/*/*/");
    assert_eq!(tokens.len(), 4);
    assert_eq!(tokens[0].token_type, TokenType::BLOCKCOMMENT);
    assert_eq!(tokens[0].value, "*");
    assert_eq!(tokens[1].token_type, TokenType::PLUS);
    assert_eq!(tokens[2].token_type, TokenType::BLOCKCOMMENT);
    assert_eq!(tokens[2].value, "/");
}

#[test]
fn block_comment_without_end_mark_runs_to_the_end() {
    let tokens = scan("/* open *");
    assert_eq!(tokens.len(), 2);
    assert_eq!(tokens[0].token_type, TokenType::BLOCKCOMMENT);
    assert_eq!(tokens[0].value, " open *");
    assert_eq!(tokens[1].token_type, TokenType::EOF);
}

#[test]
fn annotation_sets_its_body_aside() {
    let tokens = scan("#[extern \"C\"] fn");
    assert_eq!(tokens.len(), 3);
    assert_eq!(tokens[0].token_type, TokenType::ANNOTATION);
    assert_eq!(tokens[0].value, "#[{}]");
    let body: Vec<char> = "extern \"C\"".chars().collect();
    assert_eq!(tokens[0].metadata, vec![body]);
    assert_eq!(tokens[0].line, 1);
    assert_eq!(tokens[0].column, 1);
    assert_eq!(tokens[1].token_type, TokenType::IDENTIFIER);
    assert_eq!(tokens[1].value, "fn");
}

#[test]
fn annotation_without_closing_bracket_runs_to_the_end() {
    let tokens = scan("#[entry");
    assert_eq!(tokens.len(), 2);
    assert_eq!(tokens[0].token_type, TokenType::ANNOTATION);
    assert_eq!(tokens[0].metadata, vec![vec!['e', 'n', 't', 'r', 'y']]);
}

#[test]
fn empty_annotation_has_one_empty_segment() {
    let tokens = scan("#[]");
    assert_eq!(tokens.len(), 2);
    assert_eq!(tokens[0].token_type, TokenType::ANNOTATION);
    assert_eq!(tokens[0].metadata, vec![Vec::<char>::new()]);
}

#[test]
fn bare_hash_is_a_token() {
    let tokens = scan("# [");
    assert_eq!(tokens.len(), 3);
    assert_eq!(tokens[0].token_type, TokenType::HASH);
    assert_eq!(tokens[0].value, "#");
    assert_eq!(tokens[1].token_type, TokenType::LEFTBRACKET);
}

#[test]
fn identifier_goes_on_over_alphanumerics_and_underscores() {
    assert!(continues_identifier('a', true));
    assert!(continues_identifier('_', false));
    assert!(continues_identifier('_', true));
    assert!(!continues_identifier('-', false));
}
