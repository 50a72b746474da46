//! The lexer.
//!
//! At each position the first rule that accepts wins: punctuation, then a
//! quoted string, then the longest run of number characters, of
//! unquoted-string characters or of whitespace. Signs and decimal points are
//! part of numbers (`-10.0` is one `FLOAT`), and `.` is a `DOT` of its own only
//! where no digit follows it. A stretch that no rule accepts becomes a single
//! `OTHER` token that ends where some rule accepts again, so every character
//! lands in exactly one token and no token splits a character.
use crate::syntax::SyntaxKind;
use vstd::prelude::*;
use vstd::utf8::encode_utf8;

verus! {

/// A token: its kind and its length in bytes of UTF-8.
#[derive(Debug, Clone, Copy, PartialEq, Eq, Structural, PartialOrd, Ord, Hash)]
pub struct Token {
    pub kind: SyntaxKind,
    pub len: usize,
}

/// An ASCII digit.
pub open spec fn is_digit(c: char) -> bool {
    '0' <= c <= '9'
}

/// An ASCII letter.
pub open spec fn is_letter(c: char) -> bool {
    ('a' <= c <= 'z') || ('A' <= c <= 'Z')
}

/// A character that may stand in a number: a digit, `-` or `.`.
pub open spec fn is_number_char(c: char) -> bool {
    is_digit(c) || c == '-' || c == '.'
}

/// A character that may stand in an unquoted string.
pub open spec fn is_unquoted_char(c: char) -> bool {
    is_digit(c) || is_letter(c) || c == '_' || c == '.' || c == '+'
}

/// A character that may stand in a word: a letter or `_`.
pub open spec fn is_word_char(c: char) -> bool {
    is_letter(c) || c == '_'
}

/// The characters with Unicode's White_Space property.
pub open spec fn is_white_space(c: char) -> bool {
    let u = c as u32;
    ||| 0x09 <= u <= 0x0D
    ||| u == 0x20
    ||| u == 0x85
    ||| u == 0xA0
    ||| u == 0x1680
    ||| 0x2000 <= u <= 0x200A
    ||| u == 0x2028
    ||| u == 0x2029
    ||| u == 0x202F
    ||| u == 0x205F
    ||| u == 0x3000
}

/// Relies on `char::is_whitespace`: true exactly for the characters with
/// Unicode's White_Space property.
#[verifier::external_body]
fn is_whitespace(c: char) -> (r: bool)
    ensures
        r == is_white_space(c),
{
    c.is_whitespace()
}

/// Whether `c` may stand in a number; a `.` marks the number as a float.
pub fn is_allowed_number(c: char, is_float: &mut bool) -> (r: bool)
    ensures
        r == is_number_char(c),
        *final(is_float) == (*old(is_float) || c == '.'),
{
    if ('0' <= c && c <= '9') || c == '-' {
        true
    } else if c == '.' {
        *is_float = true;
        true
    } else {
        false
    }
}

/// Whether `c` may stand in an unquoted string.
pub fn is_allowed_in_unquoted_string(c: char) -> (r: bool)
    ensures
        r == is_unquoted_char(c),
{
    c == '_' || c == '.' || c == '+' || ('0' <= c && c <= '9') || ('a' <= c && c <= 'z') || (
    'A' <= c && c <= 'Z')
}

/// Whether `c` may stand in a word made of letters and `_` only.
pub fn is_allowed_in_word(c: char) -> (r: bool)
    ensures
        r == is_word_char(c),
{
    c == '_' || ('a' <= c && c <= 'z') || ('A' <= c && c <= 'Z')
}

/// The classes of characters that form runs.
#[derive(Clone, Copy)]
pub enum CharClass {
    /// Characters of `INT` and `FLOAT` tokens.
    Number,
    /// Characters of `UNQUOTED_STRING` tokens.
    Unquoted,
    /// Characters of `WHITESPACE` tokens.
    White,
}

/// Whether `c` belongs to the class `cls`.
pub open spec fn in_class(cls: CharClass, c: char) -> bool {
    match cls {
        CharClass::Number => is_number_char(c),
        CharClass::Unquoted => is_unquoted_char(c),
        CharClass::White => is_white_space(c),
    }
}

/// The end of the longest run of characters of class `cls` that starts at `i`.
pub open spec fn run_end(s: Seq<char>, i: int, cls: CharClass) -> int
    decreases s.len() - i,
{
    if i < 0 || i >= s.len() || !in_class(cls, s[i]) {
        i
    } else {
        run_end(s, i + 1, cls)
    }
}

/// The end of a string quoted by `q`, scanning from `j` with the escape state
/// `escaped`: a `\` toggles it, any other character clears it, and the string
/// ends after the first `q` met while it is clear, or else at the end of input.
pub open spec fn quote_end(s: Seq<char>, q: char, j: int, escaped: bool) -> int
    decreases s.len() - j,
{
    if j < 0 || j >= s.len() {
        s.len() as int
    } else if s[j] == '\\' {
        quote_end(s, q, j + 1, !escaped)
    } else if s[j] == q && !escaped {
        j + 1
    } else {
        quote_end(s, q, j + 1, false)
    }
}

/// Whether a `.` stands in `s[i..e]`.
pub open spec fn has_dot(s: Seq<char>, i: int, e: int) -> bool {
    exists|k: int| i <= k < e && s[k] == '.'
}

/// The punctuation token at `i`, as its kind and its end.
pub open spec fn punct_at(s: Seq<char>, i: int) -> Option<(SyntaxKind, int)> {
    let c = s[i];
    let next_is = |d: char| i + 1 < s.len() && s[i + 1] == d;
    if c == '{' {
        Some((SyntaxKind::L_CURLY, i + 1))
    } else if c == '}' {
        Some((SyntaxKind::R_CURLY, i + 1))
    } else if c == '[' {
        Some((SyntaxKind::L_SQUARE, i + 1))
    } else if c == ']' {
        Some((SyntaxKind::R_SQUARE, i + 1))
    } else if c == '@' {
        Some((SyntaxKind::AT, i + 1))
    } else if c == '=' {
        Some((SyntaxKind::EQUALS, i + 1))
    } else if c == ':' {
        Some((SyntaxKind::COLON, i + 1))
    } else if c == '.' && next_is('.') {
        Some((SyntaxKind::DOUBLEDOT, i + 2))
    } else if c == ',' {
        Some((SyntaxKind::COMMA, i + 1))
    } else if c == '~' {
        Some((SyntaxKind::TILDA, i + 1))
    } else if c == '^' {
        Some((SyntaxKind::CARET, i + 1))
    } else if c == '/' {
        Some((SyntaxKind::SLASH, i + 1))
    } else if c == '.' && i + 1 < s.len() && !is_digit(s[i + 1]) {
        Some((SyntaxKind::DOT, i + 1))
    } else {
        None
    }
}

/// The token that some rule accepts at `i`, as its kind and its end; `None`
/// where no rule does. Punctuation comes first, then quoted strings, then runs
/// of number characters, of unquoted-string characters and of whitespace.
pub open spec fn valid_at(s: Seq<char>, i: int) -> Option<(SyntaxKind, int)> {
    if i < 0 || i >= s.len() {
        None
    } else if punct_at(s, i) is Some {
        punct_at(s, i)
    } else if s[i] == '"' || s[i] == '\'' {
        Some((SyntaxKind::QUOTED_STRING, quote_end(s, s[i], i + 1, false)))
    } else if is_number_char(s[i]) {
        let e = run_end(s, i, CharClass::Number);
        Some((if has_dot(s, i, e) { SyntaxKind::FLOAT } else { SyntaxKind::INT }, e))
    } else if is_unquoted_char(s[i]) {
        Some((SyntaxKind::UNQUOTED_STRING, run_end(s, i, CharClass::Unquoted)))
    } else if is_white_space(s[i]) {
        Some((SyntaxKind::WHITESPACE, run_end(s, i, CharClass::White)))
    } else {
        None
    }
}

/// The first position from `j` on where some rule accepts a token, or the end.
pub open spec fn recovery_end(s: Seq<char>, j: int) -> int
    decreases s.len() - j,
{
    if j < 0 || j >= s.len() || valid_at(s, j) is Some {
        j
    } else {
        recovery_end(s, j + 1)
    }
}

/// The token at `i`: what a rule accepts there, or else an `OTHER` token that
/// runs up to the next place where a rule accepts one.
pub open spec fn token_at(s: Seq<char>, i: int) -> (SyntaxKind, int) {
    match valid_at(s, i) {
        Some(t) => t,
        None => (SyntaxKind::OTHER, recovery_end(s, i + 1)),
    }
}

/// The number of bytes that a character takes in UTF-8.
pub open spec fn char_width(c: char) -> nat {
    let u = c as u32;
    if u <= 0x7F {
        1
    } else if u <= 0x7FF {
        2
    } else if u <= 0xFFFF {
        3
    } else {
        4
    }
}

/// The number of bytes that `s[i..e]` takes in UTF-8.
pub open spec fn byte_len(s: Seq<char>, i: int, e: int) -> nat
    decreases e - i,
{
    if i >= e {
        0
    } else {
        char_width(s[i]) + byte_len(s, i + 1, e)
    }
}

/// The tokens of `s` from position `i` on, each as its kind and byte length.
pub open spec fn tokens_from(s: Seq<char>, i: int) -> Seq<(SyntaxKind, nat)>
    decreases s.len() - i,
{
    if i < 0 || i >= s.len() {
        seq![]
    } else {
        let (k, e) = token_at(s, i);
        if e <= i || e > s.len() {
            seq![]
        } else {
            seq![(k, byte_len(s, i, e))] + tokens_from(s, e)
        }
    }
}

/// The tokens of `s`, each as its kind and byte length.
pub open spec fn lex(s: Seq<char>) -> Seq<(SyntaxKind, nat)> {
    tokens_from(s, 0)
}

/// A list of tokens as kinds and byte lengths.
pub open spec fn token_view(ts: Seq<Token>) -> Seq<(SyntaxKind, nat)> {
    ts.map_values(|t: Token| (t.kind, t.len as nat))
}

proof fn lemma_run_end(s: Seq<char>, i: int, cls: CharClass)
    requires
        0 <= i <= s.len(),
    ensures
        i <= run_end(s, i, cls) <= s.len(),
        i < s.len() && in_class(cls, s[i]) ==> i < run_end(s, i, cls),
    decreases s.len() - i,
{
    if i < s.len() && in_class(cls, s[i]) {
        lemma_run_end(s, i + 1, cls);
    }
}

proof fn lemma_quote_end(s: Seq<char>, q: char, j: int, escaped: bool)
    requires
        0 <= j <= s.len(),
    ensures
        j <= quote_end(s, q, j, escaped) <= s.len(),
    decreases s.len() - j,
{
    if j < s.len() {
        lemma_quote_end(s, q, j + 1, !escaped);
        lemma_quote_end(s, q, j + 1, false);
    }
}

proof fn lemma_recovery_end(s: Seq<char>, j: int)
    requires
        0 <= j <= s.len(),
    ensures
        j <= recovery_end(s, j) <= s.len(),
    decreases s.len() - j,
{
    if j < s.len() && valid_at(s, j) is None {
        lemma_recovery_end(s, j + 1);
    }
}

/// Every token ends past where it starts and no later than the input.
proof fn lemma_token_at(s: Seq<char>, i: int)
    requires
        0 <= i < s.len(),
    ensures
        i < token_at(s, i).1 <= s.len(),
{
    if punct_at(s, i) is Some {
    } else if s[i] == '"' || s[i] == '\'' {
        lemma_quote_end(s, s[i], i + 1, false);
    } else if is_number_char(s[i]) {
        lemma_run_end(s, i, CharClass::Number);
    } else if is_unquoted_char(s[i]) {
        lemma_run_end(s, i, CharClass::Unquoted);
    } else if is_white_space(s[i]) {
        lemma_run_end(s, i, CharClass::White);
    } else {
        lemma_recovery_end(s, i + 1);
    }
}

proof fn lemma_byte_len_split(s: Seq<char>, i: int, k: int, e: int)
    requires
        i <= k <= e,
    ensures
        byte_len(s, i, k) + byte_len(s, k, e) == byte_len(s, i, e),
    decreases k - i,
{
    if i < k {
        lemma_byte_len_split(s, i + 1, k, e);
    }
}

proof fn lemma_char_width(c: char)
    ensures
        vstd::utf8::encode_scalar(c as u32).len() == char_width(c),
{
    vstd::utf8::char_is_scalar(c);
}

/// `byte_len` counts the bytes of the UTF-8 encoding.
proof fn lemma_byte_len_utf8(s: Seq<char>, i: int)
    requires
        0 <= i <= s.len(),
    ensures
        byte_len(s, i, s.len() as int) == encode_utf8(s.subrange(i, s.len() as int)).len(),
    decreases s.len() - i,
{
    if i < s.len() {
        lemma_byte_len_utf8(s, i + 1);
        lemma_char_width(s[i]);
        let t = s.subrange(i, s.len() as int);
        assert(t.drop_first() =~= s.subrange(i + 1, s.len() as int));
    }
}

/// The sum of the lengths of `ts`.
pub open spec fn total_len(ts: Seq<(SyntaxKind, nat)>) -> nat
    decreases ts.len(),
{
    if ts.len() == 0 {
        0
    } else {
        ts[0].1 + total_len(ts.drop_first())
    }
}

proof fn lemma_tokens_from(s: Seq<char>, i: int)
    requires
        0 <= i <= s.len(),
    ensures
        total_len(tokens_from(s, i)) == byte_len(s, i, s.len() as int),
        forall|j: int| 0 <= j < tokens_from(s, i).len() ==> #[trigger] tokens_from(s, i)[j].1 > 0,
    decreases s.len() - i,
{
    if i < s.len() {
        lemma_token_at(s, i);
        let (k, e) = token_at(s, i);
        lemma_tokens_from(s, e);
        lemma_byte_len_split(s, i, e, s.len() as int);
        let head = seq![(k, byte_len(s, i, e))];
        let rest = tokens_from(s, e);
        assert((head + rest).drop_first() =~= rest);
        assert(byte_len(s, i, e) > 0) by {
            lemma_byte_len_split(s, i, i + 1, e);
        }
        assert forall|j: int| 0 <= j < (head + rest).len() implies #[trigger] (head + rest)[j].1 > 0 by {
            if j > 0 {
                assert((head + rest)[j] == rest[j - 1]);
            }
        }
    }
}

/// The tokens cover the input: their lengths add up to its length in bytes,
/// and none is empty, so each starts where the one before it ends.
pub proof fn lemma_partition(s: Seq<char>)
    ensures
        total_len(lex(s)) == encode_utf8(s).len(),
        forall|j: int| 0 <= j < lex(s).len() ==> #[trigger] lex(s)[j].1 > 0,
{
    lemma_tokens_from(s, 0);
    lemma_byte_len_utf8(s, 0);
    assert(s.subrange(0, s.len() as int) =~= s);
}

proof fn lemma_digits_run(s: Seq<char>, i: int)
    requires
        0 <= i <= s.len(),
        forall|k: int| 0 <= k < s.len() ==> is_digit(#[trigger] s[k]),
    ensures
        run_end(s, i, CharClass::Number) == s.len(),
        byte_len(s, i, s.len() as int) == s.len() - i,
    decreases s.len() - i,
{
    if i < s.len() {
        lemma_digits_run(s, i + 1);
    }
}

/// A run of digits lexes as a single `INT` token as long as the run.
pub proof fn lemma_greedy_digits(s: Seq<char>)
    requires
        s.len() > 0,
        forall|k: int| 0 <= k < s.len() ==> is_digit(#[trigger] s[k]),
    ensures
        lex(s) == seq![(SyntaxKind::INT, s.len())],
{
    lemma_digits_run(s, 0);
    assert(!has_dot(s, 0, s.len() as int));
    assert(tokens_from(s, s.len() as int) =~= seq![]);
    assert(lex(s) =~= seq![(SyntaxKind::INT, s.len())]);
}

/// A quote followed by a body with no backslash and no closing quote lexes
/// as one `QUOTED_STRING` token that takes the whole input.
pub proof fn lemma_unterminated_string(s: Seq<char>)
    requires
        s.len() > 0,
        s[0] == '"' || s[0] == '\'',
        forall|k: int| 1 <= k < s.len() ==> #[trigger] s[k] != s[0] && s[k] != '\\',
    ensures
        lex(s) == seq![(SyntaxKind::QUOTED_STRING, encode_utf8(s).len())],
{
    lemma_unclosed_quote(s, 1);
    lemma_byte_len_utf8(s, 0);
    assert(s.subrange(0, s.len() as int) =~= s);
    assert(tokens_from(s, s.len() as int) =~= seq![]);
    assert(lex(s) =~= seq![(SyntaxKind::QUOTED_STRING, encode_utf8(s).len())]);
}

proof fn lemma_unclosed_quote(s: Seq<char>, j: int)
    requires
        1 <= j <= s.len(),
        forall|k: int| 1 <= k < s.len() ==> #[trigger] s[k] != s[0] && s[k] != '\\',
    ensures
        quote_end(s, s[0], j, false) == s.len(),
    decreases s.len() - j,
{
    if j < s.len() {
        lemma_unclosed_quote(s, j + 1);
    }
}

fn class_contains(cls: CharClass, c: char) -> (r: bool)
    ensures
        r == in_class(cls, c),
{
    match cls {
        CharClass::Number => {
            let mut is_float = false;
            is_allowed_number(c, &mut is_float)
        },
        CharClass::Unquoted => is_allowed_in_unquoted_string(c),
        CharClass::White => is_whitespace(c),
    }
}

/// The end of the run of class `cls` that starts at `i`.
fn eat_while(s: &Vec<char>, i: usize, cls: CharClass) -> (r: usize)
    requires
        i <= s.len(),
    ensures
        r == run_end(s@, i as int, cls),
{
    let mut j = i;
    while j < s.len() && class_contains(cls, s[j])
        invariant
            i <= j <= s.len(),
            run_end(s@, j as int, cls) == run_end(s@, i as int, cls),
        decreases s.len() - j,
    {
        j += 1;
    }
    j
}

/// The end of the string quoted by `quote` whose body starts at `start`.
fn quoted_string_end(s: &Vec<char>, quote: char, start: usize) -> (r: usize)
    requires
        start <= s.len(),
    ensures
        r == quote_end(s@, quote, start as int, false),
{
    let mut j = start;
    let mut escaped = false;
    while j < s.len()
        invariant
            start <= j <= s.len(),
            quote_end(s@, quote, j as int, escaped) == quote_end(s@, quote, start as int, false),
        decreases s.len() - j,
    {
        let c = s[j];
        if c == '\\' {
            escaped = !escaped;
        } else if c == quote && !escaped {
            return j + 1;
        } else {
            escaped = false;
        }
        j += 1;
    }
    s.len()
}

/// The punctuation token at `i`, as its kind and end.
fn punct_token(s: &Vec<char>, i: usize) -> (r: Option<(SyntaxKind, usize)>)
    requires
        i < s.len(),
    ensures
        r matches Some((k, e)) ==> punct_at(s@, i as int) == Some((k, e as int)),
        r is None ==> punct_at(s@, i as int) is None,
{
    let c = s[i];
    let next = if i + 1 < s.len() {
        Some(s[i + 1])
    } else {
        None
    };
    if c == '{' {
        Some((SyntaxKind::L_CURLY, i + 1))
    } else if c == '}' {
        Some((SyntaxKind::R_CURLY, i + 1))
    } else if c == '[' {
        Some((SyntaxKind::L_SQUARE, i + 1))
    } else if c == ']' {
        Some((SyntaxKind::R_SQUARE, i + 1))
    } else if c == '@' {
        Some((SyntaxKind::AT, i + 1))
    } else if c == '=' {
        Some((SyntaxKind::EQUALS, i + 1))
    } else if c == ':' {
        Some((SyntaxKind::COLON, i + 1))
    } else if c == '.' && next == Some('.') {
        Some((SyntaxKind::DOUBLEDOT, i + 2))
    } else if c == ',' {
        Some((SyntaxKind::COMMA, i + 1))
    } else if c == '~' {
        Some((SyntaxKind::TILDA, i + 1))
    } else if c == '^' {
        Some((SyntaxKind::CARET, i + 1))
    } else if c == '/' {
        Some((SyntaxKind::SLASH, i + 1))
    } else if c == '.' && i + 1 < s.len() && !('0' <= s[i + 1] && s[i + 1] <= '9') {
        Some((SyntaxKind::DOT, i + 1))
    } else {
        None
    }
}

/// The token that some rule accepts at `i`, as its kind and end.
fn valid_token(s: &Vec<char>, i: usize) -> (r: Option<(SyntaxKind, usize)>)
    requires
        i < s.len(),
    ensures
        r matches Some((k, e)) ==> valid_at(s@, i as int) == Some((k, e as int)),
        r is None ==> valid_at(s@, i as int) is None,
{
    if let Some(t) = punct_token(s, i) {
        return Some(t);
    }
    let first = s[i];
    if first == '"' || first == '\'' {
        return Some((SyntaxKind::QUOTED_STRING, quoted_string_end(s, first, i + 1)));
    }
    let mut is_float = false;
    if is_allowed_number(first, &mut is_float) {
        let e = eat_while(s, i, CharClass::Number);
        proof {
            lemma_run_end(s@, i as int, CharClass::Number);
        }
        let mut k = i + 1;
        while k < e
            invariant
                i < k <= e <= s.len(),
                is_float == has_dot(s@, i as int, k as int),
            decreases e - k,
        {
            is_allowed_number(s[k], &mut is_float);
            proof {
                if s@[k as int] == '.' {
                    assert(i <= k < k + 1 && s@[k as int] == '.');
                }
            }
            k += 1;
        }
        let kind = if is_float {
            SyntaxKind::FLOAT
        } else {
            SyntaxKind::INT
        };
        return Some((kind, e));
    }
    if is_allowed_in_unquoted_string(first) {
        return Some((SyntaxKind::UNQUOTED_STRING, eat_while(s, i, CharClass::Unquoted)));
    }
    if is_whitespace(first) {
        return Some((SyntaxKind::WHITESPACE, eat_while(s, i, CharClass::White)));
    }
    None
}

/// The token at `i`: what a rule accepts, or else an `OTHER` token up to the
/// next place where a rule accepts one.
fn next_token(s: &Vec<char>, i: usize) -> (r: (SyntaxKind, usize))
    requires
        i < s.len(),
    ensures
        token_at(s@, i as int) == (r.0, r.1 as int),
{
    match valid_token(s, i) {
        Some(t) => t,
        None => {
            let mut j = i + 1;
            while j < s.len() && valid_token(s, j).is_none()
                invariant
                    i < j <= s.len(),
                    recovery_end(s@, j as int) == recovery_end(s@, i + 1),
                decreases s.len() - j,
            {
                j += 1;
            }
            (SyntaxKind::OTHER, j)
        },
    }
}

/// The number of bytes of `s[i..e]`.
fn span_bytes(s: &Vec<char>, i: usize, e: usize) -> (r: usize)
    requires
        i <= e <= s.len(),
        byte_len(s@, 0, s.len() as int) <= usize::MAX,
    ensures
        r == byte_len(s@, i as int, e as int),
{
    proof {
        lemma_byte_len_split(s@, 0, i as int, s.len() as int);
        lemma_byte_len_split(s@, i as int, e as int, s.len() as int);
    }
    let mut acc: usize = 0;
    let mut k = i;
    while k < e
        invariant
            i <= k <= e <= s.len(),
            acc == byte_len(s@, i as int, k as int),
            byte_len(s@, i as int, e as int) <= usize::MAX,
        decreases e - k,
    {
        proof {
            lemma_byte_len_split(s@, i as int, k as int, k + 1);
            lemma_byte_len_split(s@, i as int, k + 1, e as int);
            assert(byte_len(s@, k as int, k + 1) == char_width(s@[k as int]) + byte_len(
                s@,
                k + 1,
                k + 1,
            ));
        }
        let c = s[k] as u32;
        let w: usize = if c <= 0x7F {
            1
        } else if c <= 0x7FF {
            2
        } else if c <= 0xFFFF {
            3
        } else {
            4
        };
        acc = acc + w;
        k += 1;
    }
    acc
}

/// The characters of `input`, in order.
fn chars_of(input: &str) -> (r: Vec<char>)
    ensures
        r@ == input@,
{
    let mut v: Vec<char> = Vec::new();
    for c in it: input.chars()
        invariant
            v@ == it.seq().take(it.index() as int),
    {
        v.push(c);
    }
    v
}

/// Splits `input` into tokens, in order, each with its kind and byte length.
/// This never fails: text that no rule accepts becomes `OTHER` tokens.
pub fn tokenize(input: &str) -> (r: Vec<Token>)
    ensures
        token_view(r@) == lex(input@),
        total_len(token_view(r@)) == encode_utf8(input@).len(),
        forall|j: int| 0 <= j < r@.len() ==> #[trigger] r@[j].len > 0,
{
    let s = chars_of(input);
    let total = input.as_bytes().len();
    proof {
        lemma_byte_len_utf8(s@, 0);
        assert(s@.subrange(0, s@.len() as int) =~= s@);
    }
    let mut result: Vec<Token> = Vec::new();
    let mut i: usize = 0;
    while i < s.len()
        invariant
            s@ == input@,
            i <= s.len(),
            byte_len(s@, 0, s.len() as int) <= usize::MAX,
            token_view(result@) + tokens_from(s@, i as int) == lex(s@),
        decreases s.len() - i,
    {
        let (kind, end) = next_token(&s, i);
        proof {
            lemma_token_at(s@, i as int);
        }
        let len = span_bytes(&s, i, end);
        let ghost before = result@;
        result.push(Token { kind, len });
        proof {
            assert(token_view(result@) =~= token_view(before) + seq![(kind, len as nat)]);
        }
        i = end;
    }
    proof {
        assert(token_view(result@) =~= lex(s@));
        lemma_partition(s@);
        assert forall|j: int| 0 <= j < result@.len() implies #[trigger] result@[j].len > 0 by {
            assert(token_view(result@)[j].1 > 0);
        }
    }
    result
}

} // verus!
