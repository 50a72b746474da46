//! The kinds of tokens and nodes, and how they are packed into `rowan`'s raw
//! kinds: bit 15 clear holds a fixed kind's index, bit 15 set a command id.
use rowan::SyntaxKind as RawKind;
use vstd::prelude::*;

verus! {

/// The kind of a token produced by the lexer, or of a fixed node of the tree.
#[derive(Debug, Clone, Copy, PartialEq, Eq, Structural, PartialOrd, Ord, Hash)]
#[allow(non_camel_case_types)]
pub enum SyntaxKind {
    /// Marks the end of the input; never stored in a tree.
    EOF,
    /// Stands for an event that was abandoned while building the tree.
    TOMBSTONE,
    /// Marks an error found while parsing.
    ERROR,
    /// `{`
    L_CURLY,
    /// `}`
    R_CURLY,
    /// `[`
    L_SQUARE,
    /// `]`
    R_SQUARE,
    /// `@`
    AT,
    /// `=`
    EQUALS,
    /// `:`
    COLON,
    /// `..`, used in ranges.
    DOUBLEDOT,
    /// `.` not followed by a digit, used in NBT paths.
    DOT,
    /// `,`
    COMMA,
    /// `~`
    TILDA,
    /// `^`
    CARET,
    /// `/`, at the start of a command.
    SLASH,
    /// A run of digits and `-`, with no `.`.
    INT,
    /// A run of digits, `-` and `.` that holds a `.`.
    FLOAT,
    /// A run of ASCII letters, digits, `_`, `.` and `+` that does not start a number.
    UNQUOTED_STRING,
    /// A string in `"` or `'`, possibly unclosed, with its escapes unchecked.
    QUOTED_STRING,
    /// A run of whitespace.
    WHITESPACE,
    /// A run of characters that no other rule accepts.
    OTHER,
    /// The kind of the root node; the last of the fixed kinds.
    ROOT,
}

/// The bit of a raw kind that tells a command kind from a fixed one.
pub const COMMAND_FLAG: u16 = 0x8000;

/// The position of each kind in the declaration, which is its raw value.
pub open spec fn kind_index(k: SyntaxKind) -> u16 {
    match k {
        SyntaxKind::EOF => 0,
        SyntaxKind::TOMBSTONE => 1,
        SyntaxKind::ERROR => 2,
        SyntaxKind::L_CURLY => 3,
        SyntaxKind::R_CURLY => 4,
        SyntaxKind::L_SQUARE => 5,
        SyntaxKind::R_SQUARE => 6,
        SyntaxKind::AT => 7,
        SyntaxKind::EQUALS => 8,
        SyntaxKind::COLON => 9,
        SyntaxKind::DOUBLEDOT => 10,
        SyntaxKind::DOT => 11,
        SyntaxKind::COMMA => 12,
        SyntaxKind::TILDA => 13,
        SyntaxKind::CARET => 14,
        SyntaxKind::SLASH => 15,
        SyntaxKind::INT => 16,
        SyntaxKind::FLOAT => 17,
        SyntaxKind::UNQUOTED_STRING => 18,
        SyntaxKind::QUOTED_STRING => 19,
        SyntaxKind::WHITESPACE => 20,
        SyntaxKind::OTHER => 21,
        SyntaxKind::ROOT => 22,
    }
}

/// The fixed kind whose raw value is `i`, if there is one.
pub open spec fn kind_of_index(i: u16) -> Option<SyntaxKind> {
    if i == 0 { Some(SyntaxKind::EOF) }
    else if i == 1 { Some(SyntaxKind::TOMBSTONE) }
    else if i == 2 { Some(SyntaxKind::ERROR) }
    else if i == 3 { Some(SyntaxKind::L_CURLY) }
    else if i == 4 { Some(SyntaxKind::R_CURLY) }
    else if i == 5 { Some(SyntaxKind::L_SQUARE) }
    else if i == 6 { Some(SyntaxKind::R_SQUARE) }
    else if i == 7 { Some(SyntaxKind::AT) }
    else if i == 8 { Some(SyntaxKind::EQUALS) }
    else if i == 9 { Some(SyntaxKind::COLON) }
    else if i == 10 { Some(SyntaxKind::DOUBLEDOT) }
    else if i == 11 { Some(SyntaxKind::DOT) }
    else if i == 12 { Some(SyntaxKind::COMMA) }
    else if i == 13 { Some(SyntaxKind::TILDA) }
    else if i == 14 { Some(SyntaxKind::CARET) }
    else if i == 15 { Some(SyntaxKind::SLASH) }
    else if i == 16 { Some(SyntaxKind::INT) }
    else if i == 17 { Some(SyntaxKind::FLOAT) }
    else if i == 18 { Some(SyntaxKind::UNQUOTED_STRING) }
    else if i == 19 { Some(SyntaxKind::QUOTED_STRING) }
    else if i == 20 { Some(SyntaxKind::WHITESPACE) }
    else if i == 21 { Some(SyntaxKind::OTHER) }
    else if i == 22 { Some(SyntaxKind::ROOT) }
    else { None }
}

impl SyntaxKind {
    /// The raw value of this kind: its position in the declaration.
    pub fn index(self) -> (r: u16)
        ensures
            r == kind_index(self),
            r <= kind_index(SyntaxKind::ROOT),
    {
        match self {
            SyntaxKind::EOF => 0,
            SyntaxKind::TOMBSTONE => 1,
            SyntaxKind::ERROR => 2,
            SyntaxKind::L_CURLY => 3,
            SyntaxKind::R_CURLY => 4,
            SyntaxKind::L_SQUARE => 5,
            SyntaxKind::R_SQUARE => 6,
            SyntaxKind::AT => 7,
            SyntaxKind::EQUALS => 8,
            SyntaxKind::COLON => 9,
            SyntaxKind::DOUBLEDOT => 10,
            SyntaxKind::DOT => 11,
            SyntaxKind::COMMA => 12,
            SyntaxKind::TILDA => 13,
            SyntaxKind::CARET => 14,
            SyntaxKind::SLASH => 15,
            SyntaxKind::INT => 16,
            SyntaxKind::FLOAT => 17,
            SyntaxKind::UNQUOTED_STRING => 18,
            SyntaxKind::QUOTED_STRING => 19,
            SyntaxKind::WHITESPACE => 20,
            SyntaxKind::OTHER => 21,
            SyntaxKind::ROOT => 22,
        }
    }

    /// The fixed kind whose raw value is `i`, or `None` past `ROOT`.
    pub fn from_index(i: u16) -> (r: Option<SyntaxKind>)
        ensures
            r == kind_of_index(i),
    {
        match i {
            0 => Some(SyntaxKind::EOF),
            1 => Some(SyntaxKind::TOMBSTONE),
            2 => Some(SyntaxKind::ERROR),
            3 => Some(SyntaxKind::L_CURLY),
            4 => Some(SyntaxKind::R_CURLY),
            5 => Some(SyntaxKind::L_SQUARE),
            6 => Some(SyntaxKind::R_SQUARE),
            7 => Some(SyntaxKind::AT),
            8 => Some(SyntaxKind::EQUALS),
            9 => Some(SyntaxKind::COLON),
            10 => Some(SyntaxKind::DOUBLEDOT),
            11 => Some(SyntaxKind::DOT),
            12 => Some(SyntaxKind::COMMA),
            13 => Some(SyntaxKind::TILDA),
            14 => Some(SyntaxKind::CARET),
            15 => Some(SyntaxKind::SLASH),
            16 => Some(SyntaxKind::INT),
            17 => Some(SyntaxKind::FLOAT),
            18 => Some(SyntaxKind::UNQUOTED_STRING),
            19 => Some(SyntaxKind::QUOTED_STRING),
            20 => Some(SyntaxKind::WHITESPACE),
            21 => Some(SyntaxKind::OTHER),
            22 => Some(SyntaxKind::ROOT),
            _ => None,
        }
    }
}

/// The kind of a node or token in the syntax tree.
#[derive(Debug, Clone, Copy, PartialEq, Eq, Structural, PartialOrd, Ord, Hash)]
pub enum SyntaxNodeKind {
    /// One of the fixed kinds.
    Syntax(SyntaxKind),
    /// A node of the command tree, by its id, which must fit in 15 bits.
    Command(u16),
}

impl SyntaxNodeKind {
    /// A command id fits in the 15 bits below the flag.
    pub open spec fn wf(self) -> bool {
        match self {
            SyntaxNodeKind::Syntax(_) => true,
            SyntaxNodeKind::Command(id) => id < COMMAND_FLAG,
        }
    }
}

/// The raw value stored for `k`: a fixed kind's index with the flag clear,
/// or a command id with the flag set.
pub open spec fn encode_kind(k: SyntaxNodeKind) -> u16 {
    match k {
        SyntaxNodeKind::Syntax(s) => kind_index(s),
        SyntaxNodeKind::Command(id) => (id + COMMAND_FLAG) as u16,
    }
}

/// The kind stored as `raw`; `None` where the flag is clear and no fixed kind
/// has that index.
pub open spec fn decode_kind(raw: u16) -> Option<SyntaxNodeKind> {
    if raw < COMMAND_FLAG {
        match kind_of_index(raw) {
            Some(s) => Some(SyntaxNodeKind::Syntax(s)),
            None => None,
        }
    } else {
        Some(SyntaxNodeKind::Command((raw - COMMAND_FLAG) as u16))
    }
}

/// Decoding what was encoded gives back the same kind.
pub proof fn lemma_decode_encode(k: SyntaxNodeKind)
    requires
        k.wf(),
    ensures
        decode_kind(encode_kind(k)) == Some(k),
{
}

/// No two different kinds are stored as the same raw value.
pub proof fn lemma_encode_injective(a: SyntaxNodeKind, b: SyntaxNodeKind)
    requires
        a.wf(),
        b.wf(),
        encode_kind(a) == encode_kind(b),
    ensures
        a == b,
{
    lemma_decode_encode(a);
    lemma_decode_encode(b);
}

/// `rowan`'s raw kind: a `u16` in a public field, which is all its trees store.
#[verifier::external_type_specification]
pub struct ExRawKind(RawKind);

impl SyntaxNodeKind {
    /// The raw kind under which `rowan` stores this kind.
    pub fn to_raw(self) -> (r: RawKind)
        requires
            self.wf(),
        ensures
            r.0 == encode_kind(self),
    {
        match self {
            SyntaxNodeKind::Syntax(kind) => RawKind(kind.index()),
            SyntaxNodeKind::Command(command) => {
                let r = command | COMMAND_FLAG;
                assert(r == command + 0x8000u16) by (bit_vector)
                    requires
                        command < 0x8000u16,
                        r == command | 0x8000u16,
                ;
                RawKind(r)
            },
        }
    }

    /// The kind that `rowan` stored as `raw`, or `None` where the flag is
    /// clear and the value lies past `ROOT`, which no encoding produces.
    pub fn from_raw(raw: RawKind) -> (r: Option<SyntaxNodeKind>)
        ensures
            r == decode_kind(raw.0),
            r matches Some(k) ==> k.wf(),
    {
        let it = raw.0;
        if it & COMMAND_FLAG == 0 {
            assert(it < 0x8000u16) by (bit_vector)
                requires
                    it & 0x8000u16 == 0,
            ;
            match SyntaxKind::from_index(it) {
                Some(kind) => Some(SyntaxNodeKind::Syntax(kind)),
                None => None,
            }
        } else {
            let command = it & !COMMAND_FLAG;
            assert(it >= 0x8000u16 && command == it - 0x8000u16) by (bit_vector)
                requires
                    it & 0x8000u16 != 0,
                    command == it & !0x8000u16,
            ;
            Some(SyntaxNodeKind::Command(command))
        }
    }
}

} // verus!
