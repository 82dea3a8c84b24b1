use scheme_engine::lexer::{is_number, is_symbol, is_whitespace, Lexer};
use scheme_engine::token::TokenKind;
use scheme_engine::{number_atoms, tokenize};

#[test]
fn lex_test_rules() {
    assert!(!is_symbol('('));
    assert!(!is_symbol(')'));
    assert!(is_symbol('c'));
    assert!(is_symbol('a'));
}

#[test]
fn lex_test_lexer_pos() {
    let mut lexer = Lexer::new("(a b c)");
    assert_eq!(lexer.current(), Some((0, '(')));
    assert_eq!(lexer.next_token().kind, TokenKind::LeftParen);
    assert_eq!(lexer.current(), Some((1, 'a'))); //  rest: "a b c)"
    assert_eq!(lexer.next_token().kind, TokenKind::Atom);
    assert_eq!(lexer.current(), Some((2, ' '))); // rest: " b c)"
    assert_eq!(lexer.next_token().kind, TokenKind::Atom); // b
    assert_eq!(lexer.current(), Some((4, ' '))); // rest: " c)"
    assert_eq!(lexer.next_token().kind, TokenKind::Atom); // c
    assert_eq!(lexer.current(), Some((6, ')'))); // rest: ")"
    assert_eq!(lexer.next_token().kind, TokenKind::RightParen);
}

#[test]
fn lex_test_lexer() {}

#[test]
fn lexer_test_rules() {
    assert!(!is_symbol('('));
    assert!(!is_symbol(')'));
    assert!(is_symbol('c'));
    assert!(is_symbol('a'));
}

#[test]
fn lexer_test_lexer_pos() {
    let mut lexer = Lexer::new("(a b c)");
    assert_eq!(lexer.current(), Some((0, '(')));
    assert_eq!(lexer.next_token().kind, TokenKind::LeftParen);
    assert_eq!(lexer.current(), Some((1, 'a'))); //  rest: "a b c)"
    assert_eq!(lexer.next_token().kind, TokenKind::Atom);
    assert_eq!(lexer.current(), Some((2, ' '))); // rest: " b c)"
    assert_eq!(lexer.next_token().kind, TokenKind::Atom); // b
    assert_eq!(lexer.current(), Some((4, ' '))); // rest: " c)"
    assert_eq!(lexer.next_token().kind, TokenKind::Atom); // c
    assert_eq!(lexer.current(), Some((6, ')'))); // rest: ")"
    assert_eq!(lexer.next_token().kind, TokenKind::RightParen);
}

#[test]
fn lexer_test_lexer() {}

#[test]
fn rules_classify_characters() {
    assert!(is_whitespace(' '));
    assert!(is_whitespace('\t'));
    assert!(is_whitespace('\n'));
    assert!(is_whitespace('\r'));
    assert!(is_whitespace('\u{a0}'));
    assert!(is_whitespace('\u{feff}'));
    assert!(!is_whitespace('a'));
    assert!(!is_whitespace('\u{2003}'));
    assert!(is_number('0'));
    assert!(is_number('9'));
    assert!(!is_number('a'));
    assert!(!is_number('/'));
    assert!(!is_number(':'));
    assert!(is_symbol('_'));
    assert!(is_symbol('Z'));
    assert!(!is_symbol('1'));
    assert!(!is_symbol('-'));
}

fn kinds(source: &str) -> Vec<(TokenKind, usize, usize)> {
    tokenize(source)
        .iter()
        .map(|token| (token.kind, token.span.low(), token.span.high()))
        .collect()
}

#[test]
fn tokens_carry_their_byte_spans() {
    assert_eq!(
        kinds("(a  bc)"),
        vec![
            (TokenKind::LeftParen, 0, 1),
            (TokenKind::Atom, 1, 2),
            (TokenKind::Atom, 4, 6),
            (TokenKind::RightParen, 6, 7),
            (TokenKind::EOF, 7, 7),
        ]
    );
    // Positions are byte offsets: 'é' takes two bytes.
    assert_eq!(
        kinds("é 'x"),
        vec![
            (TokenKind::Atom, 0, 2),
            (TokenKind::QuoteMark, 3, 4),
            (TokenKind::Atom, 4, 5),
            (TokenKind::EOF, 5, 5),
        ]
    );
}

#[test]
fn empty_source_is_one_end_of_file_token() {
    assert_eq!(kinds(""), vec![(TokenKind::EOF, 0, 0)]);
    assert_eq!(kinds("   "), vec![(TokenKind::EOF, 3, 3)]);
}

#[test]
fn comments_run_to_the_end_of_the_line() {
    assert_eq!(
        kinds("; hello (\nx ; y"),
        vec![(TokenKind::Atom, 10, 11), (TokenKind::EOF, 15, 15)]
    );
}

#[test]
fn a_nul_character_is_an_end_of_file_token() {
    assert_eq!(
        kinds("a \0 b"),
        vec![(TokenKind::Atom, 0, 1), (TokenKind::EOF, 2, 3)]
    );
    // Inside an atom the character is like any other.
    assert_eq!(
        kinds("a\0b"),
        vec![(TokenKind::Atom, 0, 3), (TokenKind::EOF, 3, 3)]
    );
}

#[test]
fn unicode_blanks_separate_atoms() {
    // U+2003 EM SPACE has the property White_Space.
    assert_eq!(
        kinds("a\u{2003}b"),
        vec![
            (TokenKind::Atom, 0, 1),
            (TokenKind::Atom, 4, 5),
            (TokenKind::EOF, 5, 5),
        ]
    );
}

#[test]
fn lexer_keeps_the_last_token() {
    let mut lexer = Lexer::new("(x");
    assert!(lexer.current_token().is_none());
    assert_eq!(lexer.source(), "(x");
    assert_eq!(lexer.rest(), "(x");
    let token = lexer.next_token();
    assert_eq!(lexer.current_token().map(|t| t.kind), Some(token.kind));
    assert_eq!(lexer.rest(), "x");
    assert!(!lexer.at_end());
    assert_eq!(lexer.next_token().kind, TokenKind::Atom);
    assert!(lexer.at_end());
    assert_eq!(lexer.next_token().kind, TokenKind::EOF);
    assert_eq!(lexer.next_token().kind, TokenKind::EOF);
}

#[test]
fn lexer_iter_ends_after_one_end_of_file_token() {
    let mut iter = Lexer::new("a b").into_iter();
    assert_eq!(iter.next().map(|t| t.kind), Some(TokenKind::Atom));
    assert_eq!(iter.next().map(|t| t.kind), Some(TokenKind::Atom));
    assert_eq!(iter.next().map(|t| t.kind), Some(TokenKind::EOF));
    assert_eq!(iter.next().map(|t| t.kind), None);
    assert_eq!(iter.next().map(|t| t.kind), None);
}

#[test]
fn fragments_are_the_text_of_the_tokens() {
    let source = "(définir 12 x)";
    let tokens = tokenize(source);
    let texts: Vec<&str> = tokens.iter().map(|t| t.fragment(source)).collect();
    assert_eq!(texts, vec!["(", "définir", "12", "x", ")", ""]);
    assert_eq!(tokens[1].try_fragment(source), Some("définir"));
    // A token of another, longer source is no part of this one.
    let other = tokenize("(définir 12 x) yyyyyy");
    assert_eq!(other[5].try_fragment(source), None);
    // A span that is not at a character boundary is no fragment.
    let shifted = tokenize("(d");
    assert_eq!(shifted[1].try_fragment("(éx"), None);
}

#[test]
fn number_atoms_are_the_atoms_that_start_with_a_digit() {
    let source = "(+ 1 x2 34.5 (6))";
    let tokens = tokenize(source);
    let atoms: Vec<&str> = number_atoms(source, &tokens)
        .iter()
        .map(|span| &source[span.as_range()])
        .collect();
    assert_eq!(atoms, vec!["1", "34.5", "6"]);
}

/// The characters with the property `White_Space`.
fn is_blank(c: char) -> bool {
    matches!(
        c,
        '\u{9}'..='\u{d}'
            | '\u{20}'
            | '\u{85}'
            | '\u{a0}'
            | '\u{1680}'
            | '\u{2000}'..='\u{200a}'
            | '\u{2028}'
            | '\u{2029}'
            | '\u{202f}'
            | '\u{205f}'
            | '\u{3000}'
    )
}

#[test]
fn blanks_are_the_characters_with_the_white_space_property() {
    let mut blanks = 0;
    for code in 0..=0x10ffffu32 {
        let c = match char::from_u32(code) {
            Some(c) => c,
            None => continue,
        };
        // A blank between two letters gives two atoms, a parenthesis gives
        // three tokens, any other character is part of one atom.
        let tokens = tokenize(&format!("a{c}b")).len();
        let expected = if is_blank(c) {
            blanks += 1;
            3
        } else if c == '(' || c == ')' {
            4
        } else {
            2
        };
        assert_eq!(tokens, expected, "character {code:#x}");
        assert_eq!(c.is_whitespace(), is_blank(c), "character {code:#x}");
    }
    assert_eq!(blanks, 25);
}
