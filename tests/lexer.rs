use parser::{tokenize, SyntaxKind, Token};

fn test(input: &str, expected: &str) {
    let mut actual = String::new();
    for t in tokenize(input) {
        actual += &format!("{:?} {}\n", t.kind, t.len);
    }
    let expected = expected.trim();
    let actual = actual.trim();

    assert_eq!(
        expected, actual,
        "\nExpected:\n\n{}\n\nActual:\n\n{}\n\n",
        expected, actual,
    );
}

fn kinds_and_lens(input: &str) -> Vec<(SyntaxKind, usize)> {
    tokenize(input).iter().map(|t: &Token| (t.kind, t.len)).collect()
}

#[test]
fn it_works() {
    assert_eq!(2 + 2, 4);
}

#[test]
fn test_lexing() {
    test(
        "execute as @a",
        "UNQUOTED_STRING 7
WHITESPACE 1
UNQUOTED_STRING 2
WHITESPACE 1
AT 1
UNQUOTED_STRING 1",
    );
    test(
        "/say unknown chars %*()\"",
        "SLASH 1
UNQUOTED_STRING 3
WHITESPACE 1
UNQUOTED_STRING 7
WHITESPACE 1
UNQUOTED_STRING 5
WHITESPACE 1
OTHER 4
QUOTED_STRING 1",
    );
    test(
        "-10 0 10000000000000000000000000000000000000000000000000",
        "INT 3
WHITESPACE 1
INT 1
WHITESPACE 1
INT 50",
    );
    test(
        "-10.0 .9 123.456",
        "FLOAT 5
WHITESPACE 1
FLOAT 2
WHITESPACE 1
FLOAT 7",
    )
}

#[test]
fn empty_input_gives_no_tokens() {
    assert!(tokenize("").is_empty());
}

#[test]
fn lengths_add_up_to_the_input() {
    let inputs = [
        "execute as @a[tag=x,scores={a=1..5}] ~ ~1 ^-2.5",
        "say héllo wörld ✓ 𝄞",
        "\"unclosed é",
        "%*()",
        "",
    ];
    for input in inputs {
        let tokens = tokenize(input);
        let sum: usize = tokens.iter().map(|t| t.len).sum();
        assert_eq!(sum, input.len());
        let mut offset = 0;
        for t in &tokens {
            assert!(t.len > 0);
            offset += t.len;
            assert!(input.is_char_boundary(offset));
        }
    }
}

#[test]
fn lone_unmatched_characters() {
    assert_eq!(kinds_and_lens("%"), vec![(SyntaxKind::OTHER, 1)]);
    assert_eq!(kinds_and_lens("é"), vec![(SyntaxKind::OTHER, 2)]);
    assert_eq!(kinds_and_lens("\\"), vec![(SyntaxKind::OTHER, 1)]);
}

#[test]
fn digit_run_is_one_int() {
    assert_eq!(kinds_and_lens("1234567"), vec![(SyntaxKind::INT, 7)]);
    assert_eq!(
        kinds_and_lens("12{34"),
        vec![
            (SyntaxKind::INT, 2),
            (SyntaxKind::L_CURLY, 1),
            (SyntaxKind::INT, 2)
        ]
    );
}

#[test]
fn escaped_backslash_does_not_escape_the_quote() {
    assert_eq!(
        kinds_and_lens("\"a\\\\b\""),
        vec![(SyntaxKind::QUOTED_STRING, 6)]
    );
}

#[test]
fn escaped_quote_does_not_close() {
    assert_eq!(
        kinds_and_lens("'it\\'s' x"),
        vec![
            (SyntaxKind::QUOTED_STRING, 7),
            (SyntaxKind::WHITESPACE, 1),
            (SyntaxKind::UNQUOTED_STRING, 1)
        ]
    );
    assert_eq!(
        kinds_and_lens("\"say 'hi'\""),
        vec![(SyntaxKind::QUOTED_STRING, 10)]
    );
}

#[test]
fn unterminated_string_takes_the_rest() {
    assert_eq!(
        kinds_and_lens("\"never closed é"),
        vec![(SyntaxKind::QUOTED_STRING, 16)]
    );
}

#[test]
fn execute_example() {
    assert_eq!(
        kinds_and_lens("execute as @a"),
        vec![
            (SyntaxKind::UNQUOTED_STRING, 7),
            (SyntaxKind::WHITESPACE, 1),
            (SyntaxKind::UNQUOTED_STRING, 2),
            (SyntaxKind::WHITESPACE, 1),
            (SyntaxKind::AT, 1),
            (SyntaxKind::UNQUOTED_STRING, 1)
        ]
    );
}

#[test]
fn signs_and_fractions_fold_into_numbers() {
    assert_eq!(
        kinds_and_lens("-10.0 .9 123.456"),
        vec![
            (SyntaxKind::FLOAT, 5),
            (SyntaxKind::WHITESPACE, 1),
            (SyntaxKind::FLOAT, 2),
            (SyntaxKind::WHITESPACE, 1),
            (SyntaxKind::FLOAT, 7)
        ]
    );
}

#[test]
fn unknown_run_is_one_recovery_token() {
    assert_eq!(kinds_and_lens("%*()"), vec![(SyntaxKind::OTHER, 4)]);
    assert_eq!(
        kinds_and_lens("%é*x"),
        vec![(SyntaxKind::OTHER, 4), (SyntaxKind::UNQUOTED_STRING, 1)]
    );
}

#[test]
fn punctuation() {
    assert_eq!(
        kinds_and_lens("{}[]@=:..,.~^+/-"),
        vec![
            (SyntaxKind::L_CURLY, 1),
            (SyntaxKind::R_CURLY, 1),
            (SyntaxKind::L_SQUARE, 1),
            (SyntaxKind::R_SQUARE, 1),
            (SyntaxKind::AT, 1),
            (SyntaxKind::EQUALS, 1),
            (SyntaxKind::COLON, 1),
            (SyntaxKind::DOUBLEDOT, 2),
            (SyntaxKind::COMMA, 1),
            (SyntaxKind::DOT, 1),
            (SyntaxKind::TILDA, 1),
            (SyntaxKind::CARET, 1),
            (SyntaxKind::UNQUOTED_STRING, 1),
            (SyntaxKind::SLASH, 1),
            (SyntaxKind::INT, 1)
        ]
    );
}

#[test]
fn dot_policy() {
    assert_eq!(kinds_and_lens("."), vec![(SyntaxKind::FLOAT, 1)]);
    assert_eq!(
        kinds_and_lens(".a"),
        vec![(SyntaxKind::DOT, 1), (SyntaxKind::UNQUOTED_STRING, 1)]
    );
    assert_eq!(kinds_and_lens("1..5"), vec![(SyntaxKind::FLOAT, 4)]);
    assert_eq!(
        kinds_and_lens("..5"),
        vec![(SyntaxKind::DOUBLEDOT, 2), (SyntaxKind::INT, 1)]
    );
    assert_eq!(kinds_and_lens("a.b+c_0"), vec![(SyntaxKind::UNQUOTED_STRING, 7)]);
}

#[test]
fn unicode_whitespace() {
    assert_eq!(
        kinds_and_lens("a\t\n\u{3000}\u{a0}b"),
        vec![
            (SyntaxKind::UNQUOTED_STRING, 1),
            (SyntaxKind::WHITESPACE, 7),
            (SyntaxKind::UNQUOTED_STRING, 1)
        ]
    );
    assert_eq!(kinds_and_lens("\u{200b}"), vec![(SyntaxKind::OTHER, 3)]);
}

#[test]
fn character_predicates() {
    let mut is_float = false;
    assert!(parser::is_allowed_number('7', &mut is_float));
    assert!(!is_float);
    assert!(parser::is_allowed_number('-', &mut is_float));
    assert!(!is_float);
    assert!(parser::is_allowed_number('.', &mut is_float));
    assert!(is_float);
    assert!(!parser::is_allowed_number('a', &mut is_float));
    assert!(is_float);
    assert!(parser::is_allowed_in_unquoted_string('+'));
    assert!(parser::is_allowed_in_unquoted_string('Z'));
    assert!(!parser::is_allowed_in_unquoted_string('-'));
    assert!(parser::is_allowed_in_word('_'));
    assert!(!parser::is_allowed_in_word('1'));
}
