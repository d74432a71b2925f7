//! EIP-712 `encodeType` strings: `Name(type name,...)Name2(...)`.
use vstd::prelude::*;
use vstd::string::*;
use crate::sig_parse::depth_at;
use crate::text::{find_char, find_from, lemma_find_from_bound, rfind_before, rfind_char, trim, trim_str};
use crate::type_spec::{parse_type_specifier, type_spec_of};

verus! {

/// Why an EIP-712 type string was refused.
#[derive(Debug, PartialEq, Eq)]
pub enum Eip712Error {
    /// A property without a space between its type and its name.
    InvalidPropertyDef(String),
    /// A text that the type grammar does not accept.
    InvalidTypeString(String),
}

/// A property: a type and a name, `type name`, e.g. `uint256 foo`.
#[derive(Debug, PartialEq, Eq)]
pub struct PropDef {
    /// The property's type specifier, as written.
    pub ty: String,
    /// The property's name.
    pub name: String,
}

/// One struct definition of an `encodeType` string.
#[derive(Debug, PartialEq, Eq)]
pub struct ComponentType {
    /// The text the definition was read from: name and parenthesised body.
    pub span: String,
    /// The name of the struct.
    pub name: String,
    /// The struct's properties, in order.
    pub props: Vec<PropDef>,
}

/// The struct definitions of an `encodeType` string, in textual order.
#[derive(Debug, PartialEq, Eq)]
pub struct EncodeType {
    /// The definitions; the first is the primary type.
    pub types: Vec<ComponentType>,
}

/// Index of the last space of a property text, or `-1`.
pub open spec fn prop_space(s: Seq<char>) -> int {
    rfind_before(s, ' ', s.len() as int)
}

/// The type text of a property: before its last space, trimmed.
pub open spec fn prop_ty_text(s: Seq<char>) -> Seq<char> {
    trim(s.subrange(0, prop_space(s)))
}

/// The name of a property: after its last space, trimmed.
pub open spec fn prop_name_text(s: Seq<char>) -> Seq<char> {
    trim(s.subrange(prop_space(s) + 1, s.len() as int))
}

/// Whether `s` reads as a property: it has a space, and the grammar accepts
/// the type before the last one.
pub open spec fn prop_ok(s: Seq<char>) -> bool {
    prop_space(s) >= 0 && type_spec_of(prop_ty_text(s)) is Some
}

/// Whether `p` is the property read from `s`.
pub open spec fn prop_matches(p: PropDef, s: Seq<char>) -> bool {
    prop_ok(s) && p.ty@ == prop_ty_text(s) && p.name@ == prop_name_text(s)
}

/// Whether `e` is the error of reading the property `s`.
pub open spec fn prop_error_matches(e: Eip712Error, s: Seq<char>) -> bool {
    if prop_space(s) < 0 {
        e matches Eip712Error::InvalidPropertyDef(t) && t@ == s
    } else {
        e matches Eip712Error::InvalidTypeString(t) && t@ == prop_ty_text(s)
    }
}

proof fn lemma_rfind_bound(s: Seq<char>, c: char, i: int)
    requires
        i <= s.len(),
    ensures
        -1 <= rfind_before(s, c, i) < i || (i <= 0 && rfind_before(s, c, i) == -1),
    decreases i,
{
    if i > 0 && s[i - 1] != c {
        lemma_rfind_bound(s, c, i - 1);
    }
}

impl PropDef {
    /// Reads `type name`, split at the last space; both parts are trimmed.
    pub fn parse(input: &str) -> (r: Result<PropDef, Eip712Error>)
        ensures
            r is Ok <==> prop_ok(input@),
            r matches Ok(p) ==> prop_matches(p, input@),
            r matches Err(e) ==> prop_error_matches(e, input@),
    {
        let n = input.unicode_len();
        proof {
            lemma_rfind_bound(input@, ' ', n as int);
        }
        let j = match rfind_char(input, ' ') {
            Some(j) => j,
            None => return Err(Eip712Error::InvalidPropertyDef(String::from_str(input))),
        };
        let ty = trim_str(input.substring_char(0, j));
        let name = trim_str(input.substring_char(j + 1, n));
        match parse_type_specifier(ty) {
            Some(_) => Ok(PropDef { ty: String::from_str(ty), name: String::from_str(name) }),
            None => Err(Eip712Error::InvalidTypeString(String::from_str(ty))),
        }
    }
}

/// Reads the body of a definition from `i` on, the current property starting
/// at `last`: the property texts, cut at commas at depth one, up to the `)`
/// that closes the body; and where the consumed part ends.
pub open spec fn body_scan(s: Seq<char>, last: int, i: int) -> (Seq<Seq<char>>, int)
    decreases s.len() - i,
{
    if i >= s.len() {
        (seq![], last)
    } else if s[i] == ')' && depth_at(s, i) == 0 {
        (seq![s.subrange(last, i)], i + 1)
    } else if s[i] == ',' && depth_at(s, i) == 0 {
        let rest = body_scan(s, i + 1, i + 1);
        (seq![s.subrange(last, i)] + rest.0, rest.1)
    } else {
        body_scan(s, last, i + 1)
    }
}

/// Index of the `(` that opens a definition.
pub open spec fn open_paren(s: Seq<char>) -> int {
    find_from(s, '(', 0)
}

/// The text after the opening `(`.
pub open spec fn body_text(s: Seq<char>) -> Seq<char> {
    s.subrange(open_paren(s) + 1, s.len() as int)
}

/// The property texts of the definition at the start of `s`.
pub open spec fn prop_texts(s: Seq<char>) -> Seq<Seq<char>> {
    body_scan(body_text(s), 0, 0).0
}

/// Length of the definition at the start of `s`: name, `(` and the consumed body.
pub open spec fn span_len(s: Seq<char>) -> int {
    open_paren(s) + 1 + body_scan(body_text(s), 0, 0).1
}

/// Whether a definition can be read at the start of `s`.
pub open spec fn component_ok(s: Seq<char>) -> bool {
    &&& open_paren(s) < s.len()
    &&& forall|j: int| 0 <= j < prop_texts(s).len() ==> prop_ok(#[trigger] prop_texts(s)[j])
}

/// Whether `c` is the definition read at the start of `s`.
pub open spec fn component_matches(c: ComponentType, s: Seq<char>) -> bool {
    &&& component_ok(s)
    &&& c.name@ == s.subrange(0, open_paren(s))
    &&& c.span@ == s.subrange(0, span_len(s))
    &&& c.props@.len() == prop_texts(s).len()
    &&& forall|j: int| 0 <= j < prop_texts(s).len() ==> prop_matches(#[trigger] c.props@[j], prop_texts(s)[j])
}

/// Whether `e` is the error of reading a definition at the start of `s`: no
/// `(`, or the error of its first property that cannot be read.
pub open spec fn component_error_matches(e: Eip712Error, s: Seq<char>) -> bool {
    if open_paren(s) >= s.len() {
        e matches Eip712Error::InvalidTypeString(t) && t@ == s
    } else {
        exists|j: int|
            0 <= j < prop_texts(s).len() && !prop_ok(#[trigger] prop_texts(s)[j]) && (forall|l: int|
                0 <= l < j ==> prop_ok(#[trigger] prop_texts(s)[l])) && prop_error_matches(e, prop_texts(s)[j])
    }
}

proof fn lemma_body_scan_bound(s: Seq<char>, last: int, i: int)
    requires
        0 <= last <= i,
    ensures
        0 <= body_scan(s, last, i).1 <= s.len() || (i > s.len() && body_scan(s, last, i).1 == last),
        i <= s.len() ==> body_scan(s, last, i).1 <= s.len(),
        last <= body_scan(s, last, i).1,
    decreases s.len() - i,
{
    if i >= s.len() {
    } else if s[i] == ')' && depth_at(s, i) == 0 {
    } else if s[i] == ',' && depth_at(s, i) == 0 {
        lemma_body_scan_bound(s, i + 1, i + 1);
    } else {
        lemma_body_scan_bound(s, last, i + 1);
    }
}

impl ComponentType {
    /// Reads the definition `Name(type name,...)` at the start of `input`; the
    /// span is the part of `input` that it takes up.
    pub fn parse(input: &str) -> (r: Result<ComponentType, Eip712Error>)
        ensures
            r is Ok <==> component_ok(input@),
            r matches Ok(c) ==> component_matches(c, input@),
            r matches Err(e) ==> component_error_matches(e, input@),
    {
        let n = input.unicode_len();
        let k = find_char(input, '(', 0);
        proof {
            lemma_find_from_bound(input@, '(', 0);
        }
        if k >= n {
            return Err(Eip712Error::InvalidTypeString(String::from_str(input)));
        }
        let name = input.substring_char(0, k);
        let body = input.substring_char(k + 1, n);
        let ghost s = body@;
        let m = body.unicode_len();
        let mut props: Vec<PropDef> = Vec::new();
        let mut opens: usize = 0;
        let mut closes: usize = 0;
        let mut last: usize = 0;
        let mut i: usize = 0;
        let ghost mut done: Seq<Seq<char>> = seq![];
        let mut closed = false;
        assert(s == body_text(input@));
        while i < m && !closed
            invariant
                m == s.len(),
                s == body@,
                s == body_text(input@),
                k < n,
                n == input@.len(),
                k == open_paren(input@),
                last <= i <= m,
                opens <= i,
                closes <= i,
                depth_at(s, i as int) == opens - closes,
                !closed ==> body_scan(s, 0, 0) == (done + body_scan(s, last as int, i as int).0,
                    body_scan(s, last as int, i as int).1),
                closed ==> body_scan(s, 0, 0) == (done, last as int),
                forall|j: int| 0 <= j < done.len() ==> prop_ok(#[trigger] done[j]),
                props@.len() == done.len(),
                forall|j: int| 0 <= j < done.len() ==> prop_matches(#[trigger] props@[j], done[j]),
            decreases m - i,
        {
            let c = body.get_char(i);
            if c == '(' {
                opens = opens + 1;
            } else if c == ')' || (c == ',' && opens == closes) {
                let closing = c == ')' && opens == closes;
                if c == ')' && opens != closes {
                    closes = closes + 1;
                } else {
                    let ghost raw = s.subrange(last as int, i as int);
                    proof {
                        if closing {
                            assert(done + body_scan(s, last as int, i as int).0 =~= done.push(raw));
                        } else {
                            assert(done + body_scan(s, last as int, i as int).0 =~= done.push(raw)
                                + body_scan(s, i + 1, i + 1).0);
                        }
                    }
                    match PropDef::parse(body.substring_char(last, i)) {
                        Ok(p) => {
                            props.push(p);
                            proof {
                                done = done.push(raw);
                            }
                        },
                        Err(e) => {
                            proof {
                                let all = body_scan(s, 0, 0).0;
                                let j = done.len() as int;
                                assert(prop_texts(input@) == all);
                                assert(all[j] == raw);
                                assert(!prop_ok(all[j]));
                                assert forall|l: int| 0 <= l < j implies prop_ok(#[trigger] all[l]) by {
                                    assert(all[l] == done[l]);
                                }
                                assert(prop_error_matches(e, all[j]));
                                assert(!component_ok(input@));
                            }
                            return Err(e);
                        },
                    }
                    last = i + 1;
                    if closing {
                        closes = closes + 1;
                        closed = true;
                    }
                }
            }
            i = i + 1;
        }
        proof {
            lemma_body_scan_bound(s, 0, 0);
            if !closed {
                assert(done + body_scan(s, last as int, i as int).0 =~= done);
            }
            assert(body_scan(s, 0, 0).0 =~= done);
            assert(body_scan(s, 0, 0).1 == last);
        }
        let span = input.substring_char(0, k + 1 + last);
        Ok(ComponentType {
            span: String::from_str(span),
            name: String::from_str(name),
            props,
        })
    }
}

/// The suffixes of `s` at which definitions are read, one after another,
/// until one cannot be read.
pub open spec fn encode_suffixes(s: Seq<char>) -> Seq<Seq<char>>
    decreases s.len(),
{
    if component_ok(s) && 1 <= span_len(s) <= s.len() {
        seq![s] + encode_suffixes(s.subrange(span_len(s), s.len() as int))
    } else {
        seq![]
    }
}

proof fn lemma_span_len_bound(s: Seq<char>)
    requires
        open_paren(s) < s.len(),
    ensures
        1 <= span_len(s) <= s.len(),
{
    lemma_find_from_bound(s, '(', 0);
    lemma_body_scan_bound(body_text(s), 0, 0);
}

impl EncodeType {
    /// Reads definitions one after another from the start of `input`, each
    /// after the span of the one before, and stops at the first that cannot
    /// be read; that stop is no error.
    pub fn parse(input: &str) -> (r: Result<EncodeType, Eip712Error>)
        ensures
            r matches Ok(e) && e.types@.len() == encode_suffixes(input@).len() && forall|j: int|
                0 <= j < e.types@.len() ==> component_matches(
                    #[trigger] e.types@[j],
                    encode_suffixes(input@)[j],
                ),
    {
        let mut types: Vec<ComponentType> = Vec::new();
        let mut remaining = input;
        let ghost mut done: Seq<Seq<char>> = seq![];
        loop
            invariant
                encode_suffixes(input@) == done + encode_suffixes(remaining@),
                types@.len() == done.len(),
                forall|j: int| 0 <= j < done.len() ==> component_matches(#[trigger] types@[j], done[j]),
            decreases remaining@.len(),
        {
            match ComponentType::parse(remaining) {
                Ok(t) => {
                    proof {
                        lemma_span_len_bound(remaining@);
                        assert(encode_suffixes(input@) =~= done.push(remaining@) + encode_suffixes(
                            remaining@.subrange(span_len(remaining@), remaining@.len() as int),
                        ));
                        done = done.push(remaining@);
                    }
                    let used = t.span.as_str().unicode_len();
                    let len = remaining.unicode_len();
                    remaining = remaining.substring_char(used, len);
                    types.push(t);
                },
                Err(_) => {
                    assert(encode_suffixes(remaining@) =~= seq![]);
                    assert(done + encode_suffixes(remaining@) =~= done);
                    return Ok(EncodeType { types });
                },
            }
        }
    }
}

/// Two definitions read from the same text agree in name, span and properties:
/// each definition of an `encodeType` string is the one read from its text alone.
pub proof fn lemma_component_unique(c1: ComponentType, c2: ComponentType, s: Seq<char>)
    requires
        component_matches(c1, s),
        component_matches(c2, s),
    ensures
        c1.name@ == c2.name@,
        c1.span@ == c2.span@,
        c1.props@.len() == c2.props@.len(),
        forall|j: int|
            0 <= j < c1.props@.len() ==> (#[trigger] c1.props@[j]).ty@ == c2.props@[j].ty@
                && c1.props@[j].name@ == c2.props@[j].name@,
{
    assert forall|j: int| 0 <= j < c1.props@.len() implies (#[trigger] c1.props@[j]).ty@ == c2.props@[j].ty@
        && c1.props@[j].name@ == c2.props@[j].name@ by {
        assert(prop_matches(c1.props@[j], prop_texts(s)[j]));
        assert(prop_matches(c2.props@[j], prop_texts(s)[j]));
    }
}

} // verus!
