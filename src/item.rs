//! The six kinds of JSON ABI items.
use vstd::prelude::*;
use crate::hash::{keccak_of, keccak_text};
use crate::param::{
    canon, canon_of, lemma_canon_list_structural, lemma_event_canon_list_structural, event_signature, event_signature_of, signature, signature_of, EventParam, Param, StateMutability,
};

verus! {

/// A JSON ABI constructor function.
#[derive(Debug, PartialEq, Eq, Hash)]
pub struct Constructor {
    /// The input types of the constructor. May be empty.
    pub inputs: Vec<Param>,
    /// The state mutability of the constructor.
    pub state_mutability: StateMutability,
}

/// A JSON ABI fallback function.
#[derive(Clone, Copy, Debug, PartialEq, Eq, Hash, Structural)]
pub struct Fallback {
    /// The state mutability of the fallback function.
    pub state_mutability: StateMutability,
}

/// A JSON ABI receive function.
#[derive(Clone, Copy, Debug, PartialEq, Eq, Hash, Structural)]
pub struct Receive {
    /// The state mutability of the receive function.
    pub state_mutability: StateMutability,
}

/// A JSON ABI function.
#[derive(Debug, PartialEq, Eq, Hash)]
pub struct Function {
    /// The name of the function.
    pub name: String,
    /// The input types of the function. May be empty.
    pub inputs: Vec<Param>,
    /// The output types of the function. May be empty.
    pub outputs: Vec<Param>,
    /// The state mutability of the function.
    pub state_mutability: StateMutability,
}

/// A JSON ABI event.
#[derive(Debug, PartialEq, Eq, Hash)]
pub struct Event {
    /// The name of the event.
    pub name: String,
    /// The event's inputs, in order.
    pub inputs: Vec<EventParam>,
    /// Whether the event is anonymous: its signature is then not topic 0.
    pub anonymous: bool,
}

/// A JSON ABI error.
#[derive(Debug, PartialEq, Eq, Hash)]
pub struct Error {
    /// The name of the error.
    pub name: String,
    /// The error's components, in order.
    pub inputs: Vec<Param>,
}

/// A JSON ABI item.
#[derive(Debug, PartialEq, Eq, Hash)]
pub enum AbiItem {
    Constructor(Constructor),
    Fallback(Fallback),
    Receive(Receive),
    Function(Function),
    Event(Event),
    Error(Error),
}

impl AbiItem {
    /// Returns the name of the item, for functions, events and errors.
    pub fn name(&self) -> (r: Option<&String>)
        ensures
            r == match self {
                AbiItem::Function(f) => Some(&f.name),
                AbiItem::Event(e) => Some(&e.name),
                AbiItem::Error(e) => Some(&e.name),
                _ => None,
            },
    {
        match self {
            AbiItem::Event(item) => Some(&item.name),
            AbiItem::Error(item) => Some(&item.name),
            AbiItem::Function(item) => Some(&item.name),
            AbiItem::Constructor(_) | AbiItem::Fallback(_) | AbiItem::Receive(_) => None,
        }
    }

    /// Returns a mutable reference to the name of the item, for functions,
    /// events and errors; the rest of the item stays as it was.
    pub fn name_mut(&mut self) -> (r: Option<&mut String>)
        ensures
            match *old(self) {
                AbiItem::Function(f) => r matches Some(n) && *n == f.name && *final(self)
                    == AbiItem::Function(Function { name: *final(n), ..f }),
                AbiItem::Event(e) => r matches Some(n) && *n == e.name && *final(self)
                    == AbiItem::Event(Event { name: *final(n), ..e }),
                AbiItem::Error(e) => r matches Some(n) && *n == e.name && *final(self)
                    == AbiItem::Error(Error { name: *final(n), ..e }),
                _ => r is None && *final(self) == *old(self),
            },
    {
        match self {
            AbiItem::Event(item) => Some(&mut item.name),
            AbiItem::Error(item) => Some(&mut item.name),
            AbiItem::Function(item) => Some(&mut item.name),
            AbiItem::Constructor(_) | AbiItem::Fallback(_) | AbiItem::Receive(_) => None,
        }
    }

    /// Returns the debug name of the item's kind.
    pub fn debug_name(&self) -> (r: &'static str)
        ensures
            r@ == kind_name(self.kind()),
    {
        match self {
            AbiItem::Constructor(_) => "Constructor",
            AbiItem::Fallback(_) => "Fallback",
            AbiItem::Receive(_) => "Receive",
            AbiItem::Function(_) => "Function",
            AbiItem::Event(_) => "Event",
            AbiItem::Error(_) => "Error",
        }
    }

    /// Returns the state mutability of the item, for constructors, fallback,
    /// receive and functions.
    pub fn state_mutability(&self) -> (r: Option<StateMutability>)
        ensures
            r == match self {
                AbiItem::Constructor(c) => Some(c.state_mutability),
                AbiItem::Fallback(f) => Some(f.state_mutability),
                AbiItem::Receive(x) => Some(x.state_mutability),
                AbiItem::Function(f) => Some(f.state_mutability),
                _ => None,
            },
    {
        match self {
            AbiItem::Constructor(item) => Some(item.state_mutability),
            AbiItem::Fallback(item) => Some(item.state_mutability),
            AbiItem::Receive(item) => Some(item.state_mutability),
            AbiItem::Function(item) => Some(item.state_mutability),
            AbiItem::Event(_) | AbiItem::Error(_) => None,
        }
    }

    /// Returns a mutable reference to the state mutability of the item; the
    /// rest of the item stays as it was.
    pub fn state_mutability_mut(&mut self) -> (r: Option<&mut StateMutability>)
        ensures
            match *old(self) {
                AbiItem::Constructor(c) => r matches Some(m) && *m == c.state_mutability
                    && *final(self) == AbiItem::Constructor(
                    Constructor { state_mutability: *final(m), ..c },
                ),
                AbiItem::Fallback(f) => r matches Some(m) && *m == f.state_mutability && *final(self) == AbiItem::Fallback(Fallback { state_mutability: *final(m) }),
                AbiItem::Receive(x) => r matches Some(m) && *m == x.state_mutability && *final(self) == AbiItem::Receive(Receive { state_mutability: *final(m) }),
                AbiItem::Function(f) => r matches Some(m) && *m == f.state_mutability && *final(self) == AbiItem::Function(Function { state_mutability: *final(m), ..f }),
                _ => r is None && *final(self) == *old(self),
            },
    {
        match self {
            AbiItem::Constructor(item) => Some(&mut item.state_mutability),
            AbiItem::Fallback(item) => Some(&mut item.state_mutability),
            AbiItem::Receive(item) => Some(&mut item.state_mutability),
            AbiItem::Function(item) => Some(&mut item.state_mutability),
            AbiItem::Event(_) | AbiItem::Error(_) => None,
        }
    }

    /// Returns the inputs of the item, for constructors, functions and errors.
    /// Events have [`event_inputs`](Self::event_inputs) instead.
    pub fn inputs(&self) -> (r: Option<&Vec<Param>>)
        ensures
            r == match self {
                AbiItem::Constructor(c) => Some(&c.inputs),
                AbiItem::Function(f) => Some(&f.inputs),
                AbiItem::Error(e) => Some(&e.inputs),
                _ => None,
            },
    {
        match self {
            AbiItem::Error(item) => Some(&item.inputs),
            AbiItem::Constructor(item) => Some(&item.inputs),
            AbiItem::Function(item) => Some(&item.inputs),
            AbiItem::Event(_) | AbiItem::Fallback(_) | AbiItem::Receive(_) => None,
        }
    }

    /// Returns a mutable reference to the inputs of a constructor, function or
    /// error; the rest of the item stays as it was.
    pub fn inputs_mut(&mut self) -> (r: Option<&mut Vec<Param>>)
        ensures
            match *old(self) {
                AbiItem::Constructor(c) => r matches Some(v) && *v == c.inputs && *final(self)
                    == AbiItem::Constructor(Constructor { inputs: *final(v), ..c }),
                AbiItem::Function(f) => r matches Some(v) && *v == f.inputs && *final(self)
                    == AbiItem::Function(Function { inputs: *final(v), ..f }),
                AbiItem::Error(e) => r matches Some(v) && *v == e.inputs && *final(self)
                    == AbiItem::Error(Error { inputs: *final(v), ..e }),
                _ => r is None && *final(self) == *old(self),
            },
    {
        match self {
            AbiItem::Error(item) => Some(&mut item.inputs),
            AbiItem::Constructor(item) => Some(&mut item.inputs),
            AbiItem::Function(item) => Some(&mut item.inputs),
            AbiItem::Event(_) | AbiItem::Fallback(_) | AbiItem::Receive(_) => None,
        }
    }

    /// Returns the inputs of an event.
    pub fn event_inputs(&self) -> (r: Option<&Vec<EventParam>>)
        ensures
            r == match self {
                AbiItem::Event(e) => Some(&e.inputs),
                _ => None,
            },
    {
        match self {
            AbiItem::Event(item) => Some(&item.inputs),
            AbiItem::Constructor(_)
            | AbiItem::Fallback(_)
            | AbiItem::Receive(_)
            | AbiItem::Error(_)
            | AbiItem::Function(_) => None,
        }
    }

    /// Returns a mutable reference to the inputs of an event; the rest of the
    /// item stays as it was.
    pub fn event_inputs_mut(&mut self) -> (r: Option<&mut Vec<EventParam>>)
        ensures
            match *old(self) {
                AbiItem::Event(e) => r matches Some(v) && *v == e.inputs && *final(self)
                    == AbiItem::Event(Event { inputs: *final(v), ..e }),
                _ => r is None && *final(self) == *old(self),
            },
    {
        match self {
            AbiItem::Event(item) => Some(&mut item.inputs),
            AbiItem::Constructor(_)
            | AbiItem::Fallback(_)
            | AbiItem::Receive(_)
            | AbiItem::Error(_)
            | AbiItem::Function(_) => None,
        }
    }

    /// Returns the outputs of a function.
    pub fn outputs(&self) -> (r: Option<&Vec<Param>>)
        ensures
            r == match self {
                AbiItem::Function(f) => Some(&f.outputs),
                _ => None,
            },
    {
        match self {
            AbiItem::Function(item) => Some(&item.outputs),
            AbiItem::Constructor(_)
            | AbiItem::Fallback(_)
            | AbiItem::Receive(_)
            | AbiItem::Error(_)
            | AbiItem::Event(_) => None,
        }
    }

    /// Returns a mutable reference to the outputs of a function; the rest of
    /// the item stays as it was.
    pub fn outputs_mut(&mut self) -> (r: Option<&mut Vec<Param>>)
        ensures
            match *old(self) {
                AbiItem::Function(f) => r matches Some(v) && *v == f.outputs && *final(self)
                    == AbiItem::Function(Function { outputs: *final(v), ..f }),
                _ => r is None && *final(self) == *old(self),
            },
    {
        match self {
            AbiItem::Function(item) => Some(&mut item.outputs),
            AbiItem::Constructor(_)
            | AbiItem::Fallback(_)
            | AbiItem::Receive(_)
            | AbiItem::Error(_)
            | AbiItem::Event(_) => None,
        }
    }

    /// The name of a function, event or error, as text.
    pub open spec fn name_view(&self) -> Option<Seq<char>> {
        match self {
            AbiItem::Function(f) => Some(f.name@),
            AbiItem::Event(e) => Some(e.name@),
            AbiItem::Error(e) => Some(e.name@),
            _ => None,
        }
    }

    /// The kind of the item.
    pub open spec fn kind(&self) -> ItemKind {
        match self {
            AbiItem::Constructor(_) => ItemKind::Constructor,
            AbiItem::Fallback(_) => ItemKind::Fallback,
            AbiItem::Receive(_) => ItemKind::Receive,
            AbiItem::Function(_) => ItemKind::Function,
            AbiItem::Event(_) => ItemKind::Event,
            AbiItem::Error(_) => ItemKind::Error,
        }
    }

    /// The kind of the item.
    pub fn item_kind(&self) -> (r: ItemKind)
        ensures
            r == self.kind(),
    {
        match self {
            AbiItem::Constructor(_) => ItemKind::Constructor,
            AbiItem::Fallback(_) => ItemKind::Fallback,
            AbiItem::Receive(_) => ItemKind::Receive,
            AbiItem::Function(_) => ItemKind::Function,
            AbiItem::Event(_) => ItemKind::Event,
            AbiItem::Error(_) => ItemKind::Error,
        }
    }
}

/// The six kinds of ABI items.
#[derive(Clone, Copy, Debug, PartialEq, Eq, Hash, Structural)]
pub enum ItemKind {
    Constructor,
    Fallback,
    Receive,
    Function,
    Event,
    Error,
}

/// The debug name of a kind: its name with a capital initial.
pub open spec fn kind_name(k: ItemKind) -> Seq<char> {
    match k {
        ItemKind::Constructor => "Constructor"@,
        ItemKind::Fallback => "Fallback"@,
        ItemKind::Receive => "Receive"@,
        ItemKind::Function => "Function"@,
        ItemKind::Event => "Event"@,
        ItemKind::Error => "Error"@,
    }
}

/// The first four bytes of the hash of a signature.
pub open spec fn selector_of(sig: Seq<char>) -> Seq<u8> {
    keccak_of(sig).subrange(0, 4)
}

fn selector4(sig: &str) -> (r: [u8; 4])
    ensures
        r@ == selector_of(sig@),
{
    let h = keccak_text(sig);
    let r = [h[0], h[1], h[2], h[3]];
    assert(r@ =~= selector_of(sig@));
    r
}

impl Error {
    /// `name(types)`: the preimage of the selector.
    pub open spec fn signature_spec(&self) -> Seq<char> {
        signature_of(self.name@, self.inputs@, None)
    }

    /// Computes this error's signature: `name(types)`.
    pub fn signature(&self) -> (r: String)
        ensures
            r@ == self.signature_spec(),
    {
        signature(self.name.as_str(), &self.inputs, None)
    }

    /// Computes this error's selector: the first four bytes of the hash of its signature.
    pub fn selector(&self) -> (r: [u8; 4])
        ensures
            r@ == selector_of(self.signature_spec()),
    {
        let sig = self.signature();
        selector4(sig.as_str())
    }
}

impl Function {
    /// `name(types)`: the preimage of the selector.
    pub open spec fn signature_spec(&self) -> Seq<char> {
        signature_of(self.name@, self.inputs@, None)
    }

    /// `name(types)(output types)`.
    pub open spec fn signature_full_spec(&self) -> Seq<char> {
        signature_of(self.name@, self.inputs@, Some(self.outputs@))
    }

    /// Returns this function's signature: `name(types)`.
    pub fn signature(&self) -> (r: String)
        ensures
            r@ == self.signature_spec(),
    {
        signature(self.name.as_str(), &self.inputs, None)
    }

    /// Returns this function's full signature: `name(types)(output types)`.
    pub fn signature_full(&self) -> (r: String)
        ensures
            r@ == self.signature_full_spec(),
    {
        signature(self.name.as_str(), &self.inputs, Some(&self.outputs))
    }

    /// Computes this function's selector: the first four bytes of the hash of its signature.
    pub fn selector(&self) -> (r: [u8; 4])
        ensures
            r@ == selector_of(self.signature_spec()),
    {
        let sig = self.signature();
        selector4(sig.as_str())
    }
}

impl Event {
    /// `name(types)` over all inputs, indexed or not: the preimage of the selector.
    pub open spec fn signature_spec(&self) -> Seq<char> {
        event_signature_of(self.name@, self.inputs@)
    }

    /// Returns this event's signature: `name(types)`.
    pub fn signature(&self) -> (r: String)
        ensures
            r@ == self.signature_spec(),
    {
        event_signature(self.name.as_str(), &self.inputs)
    }

    /// Computes this event's selector: the full 32-byte hash of its signature.
    pub fn selector(&self) -> (r: [u8; 32])
        ensures
            r@ == keccak_of(self.signature_spec()),
    {
        let sig = self.signature();
        keccak_text(sig.as_str())
    }
}

/// Whether two parameter lists agree in length and, pairwise, in canonical type.
pub open spec fn same_types(ps1: Seq<Param>, ps2: Seq<Param>) -> bool {
    ps1.len() == ps2.len() && forall|i: int| 0 <= i < ps1.len() ==> canon(#[trigger] ps1[i]) == canon(ps2[i])
}

/// Whether two event parameter lists agree in length and, pairwise, in canonical type.
pub open spec fn same_event_types(ps1: Seq<EventParam>, ps2: Seq<EventParam>) -> bool {
    ps1.len() == ps2.len() && forall|i: int|
        0 <= i < ps1.len() ==> canon_of((#[trigger] ps1[i]).ty@, ps1[i].components@) == canon_of(
            ps2[i].ty@,
            ps2[i].components@,
        )
}

/// A function's signatures and selector depend on its name and the canonical
/// types of its inputs (and outputs, for the full signature) alone: never on
/// parameter names, type annotations or state mutability.
pub proof fn lemma_function_selector_structural(f1: Function, f2: Function)
    requires
        f1.name@ == f2.name@,
        same_types(f1.inputs@, f2.inputs@),
    ensures
        f1.signature_spec() == f2.signature_spec(),
        selector_of(f1.signature_spec()) == selector_of(f2.signature_spec()),
        same_types(f1.outputs@, f2.outputs@) ==> f1.signature_full_spec() == f2.signature_full_spec(),
{
    lemma_canon_list_structural(f1.inputs@, f2.inputs@);
    if same_types(f1.outputs@, f2.outputs@) {
        lemma_canon_list_structural(f1.outputs@, f2.outputs@);
    }
}

/// An error's signature and selector depend on its name and the canonical
/// types of its inputs alone.
pub proof fn lemma_error_selector_structural(e1: Error, e2: Error)
    requires
        e1.name@ == e2.name@,
        same_types(e1.inputs@, e2.inputs@),
    ensures
        e1.signature_spec() == e2.signature_spec(),
        selector_of(e1.signature_spec()) == selector_of(e2.signature_spec()),
{
    lemma_canon_list_structural(e1.inputs@, e2.inputs@);
}

/// An event's signature and selector depend on its name and the canonical
/// types of its inputs alone: never on names, `indexed` or `anonymous`.
pub proof fn lemma_event_selector_structural(e1: Event, e2: Event)
    requires
        e1.name@ == e2.name@,
        same_event_types(e1.inputs@, e2.inputs@),
    ensures
        e1.signature_spec() == e2.signature_spec(),
        keccak_of(e1.signature_spec()) == keccak_of(e2.signature_spec()),
{
    lemma_event_canon_list_structural(e1.inputs@, e2.inputs@);
}

/// Whether `c` may start an identifier: an ASCII letter, `_` or `$`.
pub open spec fn is_id_start(c: char) -> bool {
    ('a' <= c && c <= 'z') || ('A' <= c && c <= 'Z') || c == '_' || c == '$'
}

/// Whether `c` may continue an identifier: an ASCII letter or digit, `_` or `$`.
pub open spec fn is_id_continue(c: char) -> bool {
    is_id_start(c) || ('0' <= c && c <= '9')
}

/// A non-empty identifier: a start character followed by continue characters.
pub open spec fn is_identifier(s: Seq<char>) -> bool {
    s.len() > 0 && is_id_start(s[0]) && forall|i: int| 1 <= i < s.len() ==> is_id_continue(#[trigger] s[i])
}

/// Whether `s` is a valid identifier.
pub fn is_valid_identifier(s: &str) -> (r: bool)
    ensures
        r == is_identifier(s@),
{
    let n = s.unicode_len();
    if n == 0 {
        return false;
    }
    let c = s.get_char(0);
    if !(('a' <= c && c <= 'z') || ('A' <= c && c <= 'Z') || c == '_' || c == '$') {
        return false;
    }
    let mut i: usize = 1;
    while i < n
        invariant
            n == s@.len(),
            1 <= i <= n,
            forall|j: int| 1 <= j < i ==> is_id_continue(#[trigger] s@[j]),
        decreases n - i,
    {
        let c = s.get_char(i);
        if !(('a' <= c && c <= 'z') || ('A' <= c && c <= 'Z') || ('0' <= c && c <= '9') || c == '_'
            || c == '$') {
            return false;
        }
        i = i + 1;
    }
    true
}

/// Why an item read from the wire was refused.
#[derive(Debug, PartialEq, Eq)]
pub enum ItemError {
    /// The item's name is not a valid identifier.
    InvalidIdentifier(String),
    /// The item is of another kind than the one asked for.
    KindMismatch { found: ItemKind, expected: ItemKind },
}

/// Accepts an item read from the wire as one of kind `expected`: its name, if
/// it has one, must be an identifier, and its kind must be `expected`.
pub fn validate_item(item: AbiItem, expected: ItemKind) -> (r: Result<AbiItem, ItemError>)
    ensures
        match item.name_view() {
            Some(n) => !is_identifier(n) ==> (r matches Err(ItemError::InvalidIdentifier(m)) && m@ == n),
            None => true,
        },
        (match item.name_view() {
            Some(n) => is_identifier(n),
            None => true,
        }) ==> if item.kind() == expected {
            r == Ok::<AbiItem, ItemError>(item)
        } else {
            r == Err::<AbiItem, ItemError>(ItemError::KindMismatch { found: item.kind(), expected })
        },
{
    match item.name() {
        Some(n) => {
            if !is_valid_identifier(n.as_str()) {
                return Err(ItemError::InvalidIdentifier(n.clone()));
            }
        },
        None => {},
    }
    let found = item.item_kind();
    if found == expected {
        Ok(item)
    } else {
        Err(ItemError::KindMismatch { found, expected })
    }
}

} // verus!
