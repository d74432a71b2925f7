//! Parameters of ABI items and their canonical type spelling.
use vstd::prelude::*;
use vstd::string::*;

verus! {

broadcast use vstd::std_specs::vec::group_vec_axioms, vstd::seq::group_seq_axioms;

/// State mutability of a function-like item.
#[derive(Clone, Copy, Debug, PartialEq, Eq, Hash, Structural)]
pub enum StateMutability {
    Pure,
    View,
    NonPayable,
    Payable,
}

/// A typed, possibly nested, possibly named field of an ABI item.
#[derive(Debug, PartialEq, Eq, Hash)]
pub struct Param {
    /// The field's name; may be empty.
    pub name: String,
    /// The type: `tuple`, with any array suffix, for nested types; else the type string.
    pub ty: String,
    /// The members of a tuple type, in order.
    pub components: Vec<Param>,
    /// An optional annotation of the type as the source language spelled it.
    pub internal_type: Option<String>,
}

/// A parameter of an event.
#[derive(Debug, PartialEq, Eq, Hash)]
pub struct EventParam {
    /// The field's name; may be empty.
    pub name: String,
    /// The type, as for [`Param`].
    pub ty: String,
    /// The members of a tuple type, in order.
    pub components: Vec<Param>,
    /// An optional annotation of the type as the source language spelled it.
    pub internal_type: Option<String>,
    /// Whether the field is one of the event's indexed topics.
    pub indexed: bool,
}

pub open spec fn tuple_word() -> Seq<char> {
    seq!['t', 'u', 'p', 'l', 'e']
}

/// Whether a type string names a tuple: `tuple` followed by nothing or by array suffixes.
pub open spec fn is_tuple_ty(ty: Seq<char>) -> bool {
    ty.len() >= 5 && ty.subrange(0, 5) == tuple_word() && (ty.len() == 5 || ty[5] == '[')
}

/// The canonical spelling of a type given by `ty` and `components`: tuples are
/// spelled out as their members' types in parentheses, followed by the array
/// suffix carried on `ty`.
pub open spec fn canon_of(ty: Seq<char>, components: Seq<Param>) -> Seq<char>
    decreases components, 1nat,
{
    if is_tuple_ty(ty) {
        seq!['('] + canon_list(components) + seq![')'] + ty.subrange(5, ty.len() as int)
    } else {
        ty
    }
}

/// The canonical type of a parameter.
pub open spec fn canon(p: Param) -> Seq<char>
    decreases p.components@, 2nat,
{
    canon_of(p.ty@, p.components@)
}

/// The canonical types of `ps`, joined by commas.
pub open spec fn canon_list(ps: Seq<Param>) -> Seq<char>
    decreases ps, 0nat,
{
    if ps.len() == 0 {
        seq![]
    } else if ps.len() == 1 {
        canon(ps[0])
    } else {
        canon_list(ps.drop_last()) + seq![','] + canon(ps.last())
    }
}

/// The canonical types of event parameters, joined by commas.
pub open spec fn event_canon_list(ps: Seq<EventParam>) -> Seq<char>
    decreases ps.len(),
{
    if ps.len() == 0 {
        seq![]
    } else if ps.len() == 1 {
        canon_of(ps[0].ty@, ps[0].components@)
    } else {
        event_canon_list(ps.drop_last()) + seq![','] + canon_of(ps.last().ty@, ps.last().components@)
    }
}

/// `name(types)`, and `(types)` of the outputs when there are some to list.
pub open spec fn signature_of(name: Seq<char>, inputs: Seq<Param>, outputs: Option<Seq<Param>>) -> Seq<char> {
    let head = name + seq!['('] + canon_list(inputs) + seq![')'];
    match outputs {
        Some(outs) => head + seq!['('] + canon_list(outs) + seq![')'],
        None => head,
    }
}

/// `name(types)` of an event.
pub open spec fn event_signature_of(name: Seq<char>, inputs: Seq<EventParam>) -> Seq<char> {
    name + seq!['('] + event_canon_list(inputs) + seq![')']
}

proof fn lemma_canon_list_step(ps: Seq<Param>, i: int)
    requires
        0 <= i < ps.len(),
    ensures
        canon_list(ps.subrange(0, i + 1)) == if i == 0 {
            canon(ps[i])
        } else {
            canon_list(ps.subrange(0, i)) + seq![','] + canon(ps[i])
        },
{
    assert(ps.subrange(0, i + 1).drop_last() =~= ps.subrange(0, i));
}

proof fn lemma_event_canon_list_step(ps: Seq<EventParam>, i: int)
    requires
        0 <= i < ps.len(),
    ensures
        event_canon_list(ps.subrange(0, i + 1)) == if i == 0 {
            canon_of(ps[i].ty@, ps[i].components@)
        } else {
            event_canon_list(ps.subrange(0, i)) + seq![','] + canon_of(ps[i].ty@, ps[i].components@)
        },
{
    assert(ps.subrange(0, i + 1).drop_last() =~= ps.subrange(0, i));
}

/// Parameter lists whose members have pairwise the same canonical types have
/// the same canonical type list.
pub proof fn lemma_canon_list_structural(ps1: Seq<Param>, ps2: Seq<Param>)
    requires
        ps1.len() == ps2.len(),
        forall|i: int| 0 <= i < ps1.len() ==> canon(#[trigger] ps1[i]) == canon(ps2[i]),
    ensures
        canon_list(ps1) == canon_list(ps2),
    decreases ps1.len(),
{
    if ps1.len() > 1 {
        lemma_canon_list_structural(ps1.drop_last(), ps2.drop_last());
        assert(canon(ps1.last()) == canon(ps2[ps2.len() - 1]));
    } else if ps1.len() == 1 {
        assert(canon(ps1[0]) == canon(ps2[0]));
    }
}

/// The canonical type of a parameter depends on its type and its members'
/// canonical types alone, not on names or type annotations.
pub proof fn lemma_canon_structural(a: Param, b: Param)
    requires
        a.ty@ == b.ty@,
        a.components@.len() == b.components@.len(),
        forall|i: int|
            0 <= i < a.components@.len() ==> canon(#[trigger] a.components@[i]) == canon(
                b.components@[i],
            ),
    ensures
        canon(a) == canon(b),
{
    lemma_canon_list_structural(a.components@, b.components@);
}

/// Event parameter lists whose members have pairwise the same canonical types
/// have the same canonical type list; `indexed` plays no part.
pub proof fn lemma_event_canon_list_structural(ps1: Seq<EventParam>, ps2: Seq<EventParam>)
    requires
        ps1.len() == ps2.len(),
        forall|i: int|
            0 <= i < ps1.len() ==> canon_of((#[trigger] ps1[i]).ty@, ps1[i].components@) == canon_of(
                ps2[i].ty@,
                ps2[i].components@,
            ),
    ensures
        event_canon_list(ps1) == event_canon_list(ps2),
    decreases ps1.len(),
{
    if ps1.len() > 1 {
        lemma_event_canon_list_structural(ps1.drop_last(), ps2.drop_last());
        assert(canon_of(ps1.last().ty@, ps1.last().components@) == canon_of(
            ps2[ps2.len() - 1].ty@,
            ps2[ps2.len() - 1].components@,
        ));
    } else if ps1.len() == 1 {
        assert(canon_of(ps1[0].ty@, ps1[0].components@) == canon_of(ps2[0].ty@, ps2[0].components@));
    }
}

/// Whether `ty` names a tuple type.
pub fn is_tuple_type(ty: &str) -> (r: bool)
    ensures
        r == is_tuple_ty(ty@),
{
    let n = ty.unicode_len();
    if n < 5 {
        return false;
    }
    let r = ty.get_char(0) == 't' && ty.get_char(1) == 'u' && ty.get_char(2) == 'p'
        && ty.get_char(3) == 'l' && ty.get_char(4) == 'e' && (n == 5 || ty.get_char(5) == '[');
    proof {
        if r {
            assert(ty@.subrange(0, 5) =~= tuple_word());
        }
        if ty@.subrange(0, 5) == tuple_word() {
            assert(ty@[0] == ty@.subrange(0, 5)[0]);
            assert(ty@[1] == ty@.subrange(0, 5)[1]);
            assert(ty@[2] == ty@.subrange(0, 5)[2]);
            assert(ty@[3] == ty@.subrange(0, 5)[3]);
            assert(ty@[4] == ty@.subrange(0, 5)[4]);
        }
    }
    r
}

/// The canonical spelling of the type given by `ty` and `components`.
pub fn canonical_type_of(ty: &String, components: &Vec<Param>) -> (r: String)
    ensures
        r@ == canon_of(ty@, components@),
    decreases components@,
{
    if !is_tuple_type(ty.as_str()) {
        return ty.clone();
    }
    let mut acc = String::new();
    acc.append("(");
    append_canon_list(&mut acc, components);
    acc.append(")");
    let n = ty.as_str().unicode_len();
    acc.append(ty.as_str().substring_char(5, n));
    proof {
        reveal_strlit("(");
        reveal_strlit(")");
        assert(acc@ =~= canon_of(ty@, components@));
    }
    acc
}

/// Appends the canonical types of `ps`, joined by commas.
pub fn append_canon_list(acc: &mut String, ps: &Vec<Param>)
    ensures
        final(acc)@ == old(acc)@ + canon_list(ps@),
    decreases ps@, 0nat,
{
    let ghost start = acc@;
    let mut i: usize = 0;
    assert(ps@.subrange(0, 0) =~= Seq::<Param>::empty());
    while i < ps.len()
        invariant
            i <= ps@.len(),
            acc@ == start + canon_list(ps@.subrange(0, i as int)),
        decreases ps@.len() - i,
    {
        proof {
            lemma_canon_list_step(ps@, i as int);
            reveal_strlit(",");
        }
        if i > 0 {
            acc.append(",");
        }
        let c = canonical_type_of(&ps[i].ty, &ps[i].components);
        acc.append(c.as_str());
        assert(acc@ =~= start + canon_list(ps@.subrange(0, i + 1)));
        i = i + 1;
    }
    assert(ps@.subrange(0, i as int) =~= ps@);
}

/// Appends the canonical types of event parameters, joined by commas.
pub fn append_event_canon_list(acc: &mut String, ps: &Vec<EventParam>)
    ensures
        final(acc)@ == old(acc)@ + event_canon_list(ps@),
{
    let ghost start = acc@;
    let mut i: usize = 0;
    assert(ps@.subrange(0, 0) =~= Seq::<EventParam>::empty());
    while i < ps.len()
        invariant
            i <= ps@.len(),
            acc@ == start + event_canon_list(ps@.subrange(0, i as int)),
        decreases ps@.len() - i,
    {
        proof {
            lemma_event_canon_list_step(ps@, i as int);
            reveal_strlit(",");
        }
        if i > 0 {
            acc.append(",");
        }
        let c = canonical_type_of(&ps[i].ty, &ps[i].components);
        acc.append(c.as_str());
        assert(acc@ =~= start + event_canon_list(ps@.subrange(0, i + 1)));
        i = i + 1;
    }
    assert(ps@.subrange(0, i as int) =~= ps@);
}

/// `name(types)`, followed by `(types)` of `outputs` when given.
pub fn signature(name: &str, inputs: &Vec<Param>, outputs: Option<&Vec<Param>>) -> (r: String)
    ensures
        r@ == signature_of(name@, inputs@, match outputs {
            Some(o) => Some(o@),
            None => None,
        }),
{
    let mut s = String::from_str(name);
    s.append("(");
    append_canon_list(&mut s, inputs);
    s.append(")");
    match outputs {
        Some(outs) => {
            s.append("(");
            append_canon_list(&mut s, outs);
            s.append(")");
        },
        None => {},
    }
    proof {
        reveal_strlit("(");
        reveal_strlit(")");
    }
    assert(s@ =~= signature_of(name@, inputs@, match outputs {
        Some(o) => Some(o@),
        None => None,
    }));
    s
}

/// `name(types)` of an event.
pub fn event_signature(name: &str, inputs: &Vec<EventParam>) -> (r: String)
    ensures
        r@ == event_signature_of(name@, inputs@),
{
    let mut s = String::from_str(name);
    s.append("(");
    append_event_canon_list(&mut s, inputs);
    s.append(")");
    proof {
        reveal_strlit("(");
        reveal_strlit(")");
    }
    assert(s@ =~= event_signature_of(name@, inputs@));
    s
}

} // verus!
