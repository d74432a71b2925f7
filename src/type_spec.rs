//! The Solidity type-specifier grammar, as far as the parsers here read it.
use vstd::prelude::*;
use alloy_sol_type_parser::{TypeSpecifier, TypeStem};

verus! {

/// The parts of a parsed type specifier that the parsers here read.
pub struct TypeParts {
    /// Whether the stem is a tuple (`(..)` or `tuple(..)`) rather than a root type.
    pub is_tuple: bool,
    /// Number of characters of a tuple stem, before any array suffix; for a
    /// root type, of the whole text.
    pub stem_len: usize,
    /// The spans of the tuple's member specifiers, in order; empty for a root type.
    pub members: Vec<String>,
}

/// What the type-specifier grammar makes of a type string: `None` where it
/// rejects the string, else the members' spans and the length of the tuple
/// stem (of the whole text for a root type).
pub uninterp spec fn type_spec_of(s: Seq<char>) -> Option<(Seq<Seq<char>>, nat)>;

/// Whether the grammar reads `s` as a tuple stem: it starts with `(` or `tuple(`.
pub open spec fn starts_tuple(s: Seq<char>) -> bool {
    (s.len() >= 1 && s[0] == '(') || (s.len() >= 6 && s.subrange(0, 6) == seq![
        't',
        'u',
        'p',
        'l',
        'e',
        '(',
    ])
}

/// The member spans of a parsed tuple, as text.
pub open spec fn member_texts(p: TypeParts) -> Seq<Seq<char>> {
    p.members@.map_values(|m: String| m@)
}

/// Relies on `alloy_sol_type_parser::TypeSpecifier::parse`: it accepts or
/// rejects the whole string, picks a tuple stem exactly when the string starts
/// with `(` or `tuple(`, its tuple members are spans inside the parentheses,
/// and only array suffixes (`[..]`) may follow a tuple stem.
#[verifier::external_body]
pub fn parse_type_specifier(s: &str) -> (r: Option<TypeParts>)
    ensures
        r is Some <==> type_spec_of(s@) is Some,
        r matches Some(p) ==> p.is_tuple == starts_tuple(s@),
        r matches Some(p) ==> member_texts(p) == type_spec_of(s@).unwrap().0,
        r matches Some(p) ==> p.stem_len == type_spec_of(s@).unwrap().1,
        r matches Some(p) ==> p.stem_len <= s@.len(),
        r matches Some(p) ==> p.stem_len == s@.len() || s@[p.stem_len as int] == '[',
        r matches Some(p) ==> forall|i: int|
            0 <= i < p.members@.len() ==> #[trigger] p.members@[i]@.len() + 2 <= s@.len(),
        r matches Some(p) ==> !p.is_tuple ==> p.members@.len() == 0,
{
    match TypeSpecifier::parse(s) {
        Ok(t) => Some(match t.stem {
            TypeStem::Root(_) => TypeParts {
                is_tuple: false,
                stem_len: s.chars().count(),
                members: Vec::new(),
            },
            TypeStem::Tuple(tuple) => TypeParts {
                is_tuple: true,
                stem_len: tuple.span.chars().count(),
                members: tuple.types.iter().map(|m| m.span.to_string()).collect(),
            },
        }),
        Err(_) => None,
    }
}

} // verus!
