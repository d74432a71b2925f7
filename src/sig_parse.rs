//! Free-text error signatures: `Name(type name,type name,...)`.
use vstd::prelude::*;
use vstd::string::*;
use crate::item::Error;
use crate::param::{canon, canon_list, is_tuple_ty, tuple_word, Param};
use crate::text::{find_char, find_from, lemma_find_from_bound, trim, trim_str};
use crate::type_spec::{member_texts, parse_type_specifier, starts_tuple, type_spec_of};

verus! {

/// The type part of a parameter text: everything before its first space.
pub open spec fn param_ty_text(s: Seq<char>) -> Seq<char> {
    s.subrange(0, find_from(s, ' ', 0))
}

/// The name part of a parameter text: after the first space, up to the next.
pub open spec fn param_name_text(s: Seq<char>) -> Seq<char> {
    let k = find_from(s, ' ', 0);
    s.subrange(k + 1, find_from(s, ' ', k + 1))
}

/// The member spans of the tuple type spelled by `ty`.
pub open spec fn members_of(ty: Seq<char>) -> Seq<Seq<char>> {
    type_spec_of(ty).unwrap().0
}

/// The text handed to the parameter parser for an anonymous tuple member.
pub open spec fn member_param_text(ty: Seq<char>, i: int) -> Seq<char> {
    members_of(ty)[i] + seq![' ']
}

/// Whether `s` reads as one parameter: a type the grammar accepts, a space,
/// a name; and, for a tuple type, each member reads as an anonymous parameter.
pub open spec fn param_parses(s: Seq<char>) -> bool
    decreases s.len(),
{
    let k = find_from(s, ' ', 0);
    let ty = param_ty_text(s);
    &&& 0 <= k < s.len()
    &&& type_spec_of(ty) is Some
    &&& starts_tuple(ty) ==> forall|i: int|
        0 <= i < members_of(ty).len() ==> (#[trigger] member_param_text(ty, i)).len() < s.len()
            && param_parses(member_param_text(ty, i))
}

/// Whether `p` is what the parameter parser builds from `s`.
pub open spec fn param_matches(p: Param, s: Seq<char>) -> bool
    decreases s.len(),
{
    let ty = param_ty_text(s);
    &&& param_parses(s)
    &&& p.name@ == param_name_text(s)
    &&& p.internal_type matches Some(t) && t@ == ty
    &&& if starts_tuple(ty) {
        &&& p.ty@ == tuple_word() + ty.subrange(type_spec_of(ty).unwrap().1 as int, ty.len() as int)
        &&& type_spec_of(ty).unwrap().1 <= ty.len()
        &&& (type_spec_of(ty).unwrap().1 == ty.len() || ty[type_spec_of(ty).unwrap().1 as int] == '[')
        &&& p.components@.len() == members_of(ty).len()
        &&& forall|i: int|
            0 <= i < members_of(ty).len() ==> (#[trigger] member_param_text(ty, i)).len() < s.len()
                && param_matches(p.components@[i], member_param_text(ty, i))
    } else {
        &&& p.ty@ == ty
        &&& p.components@.len() == 0
    }
}

/// The message of a malformed parameter.
pub open spec fn incorrect_format() -> Seq<char> {
    "Incorrect format used"@
}

/// Parses one parameter, `type name`: the type is what precedes the first
/// space, the name what follows it up to the next space. A tuple type becomes
/// `tuple`, with its array suffix, and its members become anonymous parameters.
pub fn parse_param(s: &str) -> (r: Result<Param, String>)
    ensures
        r is Ok <==> param_parses(s@),
        r matches Ok(p) ==> param_matches(p, s@),
        r matches Err(e) ==> e@ == incorrect_format(),
    decreases s@.len(),
{
    let n = s.unicode_len();
    let k = find_char(s, ' ', 0);
    proof {
        lemma_find_from_bound(s@, ' ', 0);
    }
    if k >= n {
        return Err(String::from_str("Incorrect format used"));
    }
    let ty_str = s.substring_char(0, k);
    let m = find_char(s, ' ', k + 1);
    proof {
        lemma_find_from_bound(s@, ' ', k + 1);
    }
    let name = s.substring_char(k + 1, m);
    let parts = match parse_type_specifier(ty_str) {
        Some(parts) => parts,
        None => return Err(String::from_str("Incorrect format used")),
    };
    let ghost ty = ty_str@;
    assert(ty == param_ty_text(s@));
    let mut components: Vec<Param> = Vec::new();
    let ty_out;
    if parts.is_tuple {
        let tail = ty_str.substring_char(parts.stem_len, k);
        ty_out = String::from_str("tuple").concat(tail);
        let mut i: usize = 0;
        while i < parts.members.len()
            invariant
                i <= parts.members@.len(),
                member_texts(parts) == members_of(ty),
                starts_tuple(ty),
                type_spec_of(ty) is Some,
                ty == param_ty_text(s@),
                forall|j: int| 0 <= j < parts.members@.len() ==> #[trigger] parts.members@[j]@.len() + 2 <= ty.len(),
                ty.len() == k,
                k < n,
                n == s@.len(),
                components@.len() == i,
                forall|j: int|
                    0 <= j < i ==> (#[trigger] member_param_text(ty, j)).len() < s@.len()
                        && param_matches(components@[j], member_param_text(ty, j)),
            decreases parts.members@.len() - i,
        {
            let mut text = parts.members[i].clone();
            text.append(" ");
            proof {
                reveal_strlit(" ");
                assert(member_texts(parts)[i as int] == parts.members@[i as int]@);
                assert(text@ =~= member_param_text(ty, i as int));
            }
            match parse_param(text.as_str()) {
                Ok(p) => components.push(p),
                Err(e) => {
                    proof {
                        assert(member_texts(parts).len() == parts.members@.len());
                        assert(starts_tuple(ty));
                        assert(0 <= i < members_of(ty).len());
                        assert(!param_parses(member_param_text(ty, i as int)));
                        if param_parses(s@) {
                            assert(param_parses(member_param_text(ty, i as int)));
                        }
                    }
                    return Err(e);
                },
            }
            i = i + 1;
        }
        proof {
            assert forall|j: int| 0 <= j < members_of(ty).len() implies (#[trigger] member_param_text(ty, j)).len() < s@.len()
                && param_parses(member_param_text(ty, j)) by {
                assert(param_matches(components@[j], member_param_text(ty, j)));
            }
            reveal_strlit("tuple");
            assert(ty_out@ =~= tuple_word() + ty.subrange(type_spec_of(ty).unwrap().1 as int, ty.len() as int));
        }
    } else {
        ty_out = String::from_str(ty_str);
    }
    let p = Param {
        name: String::from_str(name),
        ty: ty_out,
        components,
        internal_type: Some(String::from_str(ty_str)),
    };
    assert(param_parses(s@));
    Ok(p)
}

/// Parenthesis depth after the first `i` characters of `s`: `(` opens, `)` closes.
pub open spec fn depth_at(s: Seq<char>, i: int) -> int
    decreases i,
{
    if i <= 0 {
        0
    } else {
        depth_at(s, i - 1) + if s[i - 1] == '(' {
            1int
        } else if s[i - 1] == ')' {
            -1int
        } else {
            0int
        }
    }
}

/// The pieces of `s` from `last` on, cut at each comma at depth zero found at
/// or after `i`; a trailing empty piece is dropped.
pub open spec fn split_from(s: Seq<char>, last: int, i: int) -> Seq<Seq<char>>
    decreases s.len() - i,
{
    if i >= s.len() {
        if last < s.len() {
            seq![s.subrange(last, s.len() as int)]
        } else {
            seq![]
        }
    } else if s[i] == ',' && depth_at(s, i) == 0 {
        seq![s.subrange(last, i)] + split_from(s, i + 1, i + 1)
    } else {
        split_from(s, last, i + 1)
    }
}

/// The parameter texts of a parameter list: cut at commas outside parentheses.
pub open spec fn top_level_pieces(s: Seq<char>) -> Seq<Seq<char>> {
    split_from(s, 0, 0)
}

/// Whether every piece reads as a parameter once trimmed.
pub open spec fn params_parse(pieces: Seq<Seq<char>>) -> bool {
    forall|k: int| 0 <= k < pieces.len() ==> param_parses(#[trigger] trim(pieces[k]))
}

/// Whether `ps` are the parameters parsed from the trimmed pieces, in order.
pub open spec fn params_match(ps: Seq<Param>, pieces: Seq<Seq<char>>) -> bool {
    &&& ps.len() == pieces.len()
    &&& forall|k: int| 0 <= k < pieces.len() ==> param_matches(#[trigger] ps[k], trim(pieces[k]))
}

/// Parses a comma-separated parameter list; commas inside parentheses belong
/// to tuple types and do not separate parameters.
pub fn parse_params(params: &str) -> (r: Result<Vec<Param>, String>)
    ensures
        r is Ok <==> params_parse(top_level_pieces(params@)),
        r matches Ok(ps) ==> params_match(ps@, top_level_pieces(params@)),
        r matches Err(e) ==> e@ == incorrect_format(),
{
    let ghost s = params@;
    let n = params.unicode_len();
    let mut result: Vec<Param> = Vec::new();
    let ghost mut done: Seq<Seq<char>> = seq![];
    let mut opens: usize = 0;
    let mut closes: usize = 0;
    let mut last: usize = 0;
    let mut i: usize = 0;
    while i < n
        invariant
            n == s.len(),
            s == params@,
            last <= i <= n,
            opens <= i,
            closes <= i,
            depth_at(s, i as int) == opens - closes,
            top_level_pieces(s) == done + split_from(s, last as int, i as int),
            params_parse(done),
            params_match(result@, done),
        decreases n - i,
    {
        let c = params.get_char(i);
        if c == '(' {
            opens = opens + 1;
        } else if c == ')' {
            closes = closes + 1;
        } else if c == ',' && opens == closes {
            let piece = trim_str(params.substring_char(last, i));
            let ghost raw = s.subrange(last as int, i as int);
            assert(done + split_from(s, last as int, i as int) =~= done.push(raw) + split_from(s, i + 1, i + 1));
            match parse_param(piece) {
                Ok(p) => {
                    result.push(p);
                    proof {
                        done = done.push(raw);
                    }
                },
                Err(e) => {
                    proof {
                        let all = top_level_pieces(s);
                        assert(all[done.len() as int] == raw);
                        assert(!param_parses(trim(all[done.len() as int])));
                    }
                    return Err(e);
                },
            }
            last = i + 1;
        }
        i = i + 1;
    }
    if last < n {
        let piece = trim_str(params.substring_char(last, n));
        let ghost raw = s.subrange(last as int, n as int);
        match parse_param(piece) {
            Ok(p) => {
                result.push(p);
                proof {
                    done = done.push(raw);
                }
            },
            Err(e) => {
                proof {
                    let all = top_level_pieces(s);
                    assert(all[done.len() as int] == raw);
                    assert(!param_parses(trim(all[done.len() as int])));
                }
                return Err(e);
            },
        }
    }
    assert(top_level_pieces(s) =~= done);
    Ok(result)
}

/// The message of a signature without `(`.
pub open spec fn no_open_paren() -> Seq<char> {
    "No opening parenthesis found"@
}

/// The parameter list of a signature text: after the first `(`, without the
/// last character.
pub open spec fn error_params_text(s: Seq<char>) -> Seq<char> {
    let k = find_from(s, '(', 0);
    if k + 1 <= s.len() - 1 {
        s.subrange(k + 1, s.len() - 1)
    } else {
        seq![]
    }
}

impl Error {
    /// Parses `Name(type name,type name,...)`: the name is what precedes the
    /// first `(`, the parameter list what lies between it and the last character.
    pub fn parse(s: &str) -> (r: Result<Error, String>)
        ensures
            r is Ok <==> find_from(s@, '(', 0) < s@.len() && params_parse(
                top_level_pieces(error_params_text(s@)),
            ),
            r matches Ok(e) ==> e.name@ == s@.subrange(0, find_from(s@, '(', 0)) && params_match(
                e.inputs@,
                top_level_pieces(error_params_text(s@)),
            ),
            r matches Err(m) ==> m@ == if find_from(s@, '(', 0) < s@.len() {
                incorrect_format()
            } else {
                no_open_paren()
            },
    {
        let n = s.unicode_len();
        let k = find_char(s, '(', 0);
        proof {
            lemma_find_from_bound(s@, '(', 0);
        }
        if k >= n {
            return Err(String::from_str("No opening parenthesis found"));
        }
        let name = String::from_str(s.substring_char(0, k));
        let params_str = if k + 1 <= n - 1 {
            s.substring_char(k + 1, n - 1)
        } else {
            s.substring_char(0, 0)
        };
        assert(params_str@ =~= error_params_text(s@));
        let inputs = parse_params(params_str)?;
        Ok(Error { name, inputs })
    }
}

/// The type text of the `i`-th member of the tuple type `t`.
pub open spec fn member_ty(t: Seq<char>, i: int) -> Seq<char> {
    param_ty_text(member_param_text(t, i))
}

/// The canonical spelling of the type text `t` as the grammar reads it: a
/// tuple becomes its members' spellings in parentheses, followed by its array
/// suffix; any other type stays as written.
pub open spec fn spelled(t: Seq<char>) -> Seq<char>
    decreases t.len(), members_of(t).len() + 1,
{
    if starts_tuple(t) && type_spec_of(t) is Some {
        seq!['('] + spelled_list(t, members_of(t).len() as int) + seq![')'] + t.subrange(
            type_spec_of(t).unwrap().1 as int,
            t.len() as int,
        )
    } else {
        t
    }
}

/// The spellings of the first `n` members of the tuple type `t`, joined by commas.
pub open spec fn spelled_list(t: Seq<char>, n: int) -> Seq<char>
    decreases t.len(), n,
{
    if n <= 0 {
        seq![]
    } else if member_ty(t, n - 1).len() >= t.len() {
        seq![]
    } else if n == 1 {
        spelled(member_ty(t, 0))
    } else {
        spelled_list(t, n - 1) + seq![','] + spelled(member_ty(t, n - 1))
    }
}

/// Whether no root type within `t` is spelled like a tuple (`tuple`, `tuple[2]`).
pub open spec fn plain_roots(t: Seq<char>) -> bool
    decreases t.len(),
{
    if starts_tuple(t) && type_spec_of(t) is Some {
        forall|i: int|
            0 <= i < members_of(t).len() ==> (#[trigger] member_ty(t, i)).len() < t.len()
                && plain_roots(member_ty(t, i))
    } else {
        !is_tuple_ty(t)
    }
}

/// Parsing a parameter and spelling its type back gives the canonical
/// spelling of the type it was read from: tuple members keep their order and
/// array suffixes keep their place.
pub proof fn lemma_parse_then_spell(p: Param, s: Seq<char>)
    requires
        param_matches(p, s),
        plain_roots(param_ty_text(s)),
    ensures
        canon(p) == spelled(param_ty_text(s)),
    decreases s.len(),
{
    let ty = param_ty_text(s);
    if starts_tuple(ty) {
        let n = members_of(ty).len() as int;
        let cs = p.components@;
        assert forall|i: int| 0 <= i < n implies canon(#[trigger] cs[i]) == spelled(member_ty(ty, i))
            && member_ty(ty, i).len() < ty.len() by {
            assert(param_matches(cs[i], member_param_text(ty, i)));
            assert(member_param_text(ty, i).len() < s.len());
            assert(plain_roots(member_ty(ty, i)));
            lemma_parse_then_spell(cs[i], member_param_text(ty, i));
        }
        lemma_canon_list_spelled(p, ty, n);
        assert(cs.subrange(0, n) =~= cs);
        assert(is_tuple_ty(p.ty@)) by {
            assert(p.ty@.subrange(0, 5) =~= tuple_word());
        }
        assert(p.ty@.subrange(5, p.ty@.len() as int) =~= ty.subrange(
            type_spec_of(ty).unwrap().1 as int,
            ty.len() as int,
        ));
    }
}

proof fn lemma_canon_list_spelled(p: Param, ty: Seq<char>, n: int)
    requires
        0 <= n <= p.components@.len(),
        forall|i: int|
            0 <= i < n ==> canon(#[trigger] p.components@[i]) == spelled(member_ty(ty, i))
                && member_ty(ty, i).len() < ty.len(),
    ensures
        canon_list(p.components@.subrange(0, n)) == spelled_list(ty, n),
    decreases n,
{
    let cs = p.components@;
    if n > 1 {
        lemma_canon_list_spelled(p, ty, n - 1);
        assert(cs.subrange(0, n).drop_last() =~= cs.subrange(0, n - 1));
        assert(canon(cs[n - 1]) == spelled(member_ty(ty, n - 1)));
    } else if n == 1 {
        assert(canon(cs[0]) == spelled(member_ty(ty, 0)));
    }
}

} // verus!
