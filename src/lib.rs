//! Lexer and kind-space codec for the command language of Minecraft functions.
//!
//! The lexer turns source text into a flat list of tokens, each a kind and a
//! length in bytes, that together cover every byte of the input. The codec
//! packs the lexer's own kinds and the grammar's command kinds into the one
//! `u16` kind that `rowan` stores in its trees.
mod lexer;
mod syntax;

pub use lexer::{
    byte_len, char_width, has_dot, in_class, is_allowed_in_unquoted_string, is_allowed_in_word,
    is_allowed_number, is_digit, is_letter, is_number_char, is_unquoted_char, is_white_space,
    is_word_char, lemma_greedy_digits, lemma_partition, lemma_unterminated_string, lex, punct_at,
    quote_end, recovery_end, run_end, token_at, token_view, tokenize, tokens_from, total_len,
    valid_at, CharClass, Token,
};
pub use syntax::{
    decode_kind, encode_kind, kind_index, kind_of_index, lemma_decode_encode,
    lemma_encode_injective, SyntaxKind, SyntaxNodeKind, COMMAND_FLAG,
};
