use json_abi::item::is_valid_identifier;
use json_abi::{
    validate_item, AbiItem, Constructor, Error, Event, EventParam, Fallback, Function, ItemError,
    ItemKind, Param, Receive, StateMutability,
};

fn p(name: &str, ty: &str) -> Param {
    Param { name: name.to_string(), ty: ty.to_string(), components: vec![], internal_type: None }
}

fn transfer() -> Function {
    Function {
        name: "transfer".to_string(),
        inputs: vec![p("to", "address"), p("amount", "uint256")],
        outputs: vec![p("", "bool")],
        state_mutability: StateMutability::NonPayable,
    }
}

#[test]
fn function_signatures_and_selector() {
    let f = transfer();
    assert_eq!(f.signature(), "transfer(address,uint256)");
    assert_eq!(f.signature_full(), "transfer(address,uint256)(bool)");
    assert_eq!(f.selector(), [0xa9, 0x05, 0x9c, 0xbb]);
}

#[test]
fn selector_ignores_names_and_annotations() {
    let mut g = transfer();
    g.inputs[0].name = "recipient".to_string();
    g.inputs[1].internal_type = Some("uint256".to_string());
    g.state_mutability = StateMutability::View;
    assert_eq!(g.selector(), transfer().selector());
    let mut h = transfer();
    h.inputs[1].ty = "uint128".to_string();
    assert_ne!(h.selector(), transfer().selector());
}

#[test]
fn tuple_param_signature() {
    let t = Param {
        name: "pair".to_string(),
        ty: "tuple[2]".to_string(),
        components: vec![p("a", "address"), p("b", "uint256")],
        internal_type: None,
    };
    let e = Error { name: "Bad".to_string(), inputs: vec![t] };
    assert_eq!(e.signature(), "Bad((address,uint256)[2])");
}

#[test]
fn error_selector() {
    let e = Error { name: "Error".to_string(), inputs: vec![p("", "string")] };
    assert_eq!(e.signature(), "Error(string)");
    assert_eq!(e.selector(), [0x08, 0xc3, 0x79, 0xa0]);
}

#[test]
fn event_signature_and_selector() {
    let ev = Event {
        name: "Transfer".to_string(),
        inputs: vec![
            EventParam { name: "from".to_string(), ty: "address".to_string(), components: vec![], internal_type: None, indexed: true },
            EventParam { name: "to".to_string(), ty: "address".to_string(), components: vec![], internal_type: None, indexed: true },
            EventParam { name: "value".to_string(), ty: "uint256".to_string(), components: vec![], internal_type: None, indexed: false },
        ],
        anonymous: false,
    };
    assert_eq!(ev.signature(), "Transfer(address,address,uint256)");
    let sel = ev.selector();
    assert_eq!(&sel[..4], &[0xdd, 0xf2, 0x52, 0xad]);
    assert_eq!(sel[31], 0xef);
}

#[test]
fn accessors_by_kind() {
    let f = AbiItem::Function(transfer());
    assert_eq!(f.name().map(|s| s.as_str()), Some("transfer"));
    assert_eq!(f.state_mutability(), Some(StateMutability::NonPayable));
    assert_eq!(f.inputs().map(|v| v.len()), Some(2));
    assert_eq!(f.outputs().map(|v| v.len()), Some(1));
    assert!(f.event_inputs().is_none());
    assert_eq!(f.debug_name(), "Function");

    let c = AbiItem::Constructor(Constructor { inputs: vec![], state_mutability: StateMutability::Payable });
    assert!(c.name().is_none());
    assert_eq!(c.state_mutability(), Some(StateMutability::Payable));
    assert!(c.outputs().is_none());
    assert_eq!(c.debug_name(), "Constructor");

    let fb = AbiItem::Fallback(Fallback { state_mutability: StateMutability::Payable });
    assert!(fb.inputs().is_none());
    let rc = AbiItem::Receive(Receive { state_mutability: StateMutability::Payable });
    assert_eq!(rc.debug_name(), "Receive");

    let ev = AbiItem::Event(Event { name: "E".to_string(), inputs: vec![], anonymous: true });
    assert!(ev.state_mutability().is_none());
    assert!(ev.inputs().is_none());
    assert_eq!(ev.event_inputs().map(|v| v.len()), Some(0));

    let er = AbiItem::Error(Error { name: "X".to_string(), inputs: vec![] });
    assert!(er.state_mutability().is_none());
    assert_eq!(er.inputs().map(|v| v.len()), Some(0));
}

#[test]
fn mutable_accessors_change_only_their_field() {
    let mut f = AbiItem::Function(transfer());
    *f.name_mut().unwrap() = "send".to_string();
    *f.state_mutability_mut().unwrap() = StateMutability::Payable;
    f.inputs_mut().unwrap().push(p("memo", "string"));
    f.outputs_mut().unwrap().clear();
    match &f {
        AbiItem::Function(g) => {
            assert_eq!(g.name, "send");
            assert_eq!(g.state_mutability, StateMutability::Payable);
            assert_eq!(g.inputs.len(), 3);
            assert!(g.outputs.is_empty());
        }
        _ => panic!("kind changed"),
    }
    let mut ev = AbiItem::Event(Event { name: "E".to_string(), inputs: vec![], anonymous: false });
    assert!(ev.inputs_mut().is_none());
    assert!(ev.state_mutability_mut().is_none());
    assert!(ev.outputs_mut().is_none());
    ev.event_inputs_mut().unwrap().push(EventParam {
        name: "x".to_string(),
        ty: "uint8".to_string(),
        components: vec![],
        internal_type: None,
        indexed: true,
    });
    assert_eq!(ev.event_inputs().map(|v| v.len()), Some(1));
    let mut fb = AbiItem::Fallback(Fallback { state_mutability: StateMutability::NonPayable });
    assert!(fb.name_mut().is_none());
    *fb.state_mutability_mut().unwrap() = StateMutability::Payable;
    assert_eq!(fb.state_mutability(), Some(StateMutability::Payable));
}

#[test]
fn validate_rejects_bad_identifier() {
    let item = AbiItem::Error(Error { name: "123bad".to_string(), inputs: vec![] });
    assert_eq!(
        validate_item(item, ItemKind::Error),
        Err(ItemError::InvalidIdentifier("123bad".to_string()))
    );
    let ok = AbiItem::Error(Error { name: "_ok1".to_string(), inputs: vec![] });
    assert_eq!(
        validate_item(ok, ItemKind::Error),
        Ok(AbiItem::Error(Error { name: "_ok1".to_string(), inputs: vec![] }))
    );
}

#[test]
fn validate_rejects_other_kind() {
    let ev = AbiItem::Event(Event { name: "Transfer".to_string(), inputs: vec![], anonymous: false });
    assert_eq!(
        validate_item(ev, ItemKind::Function),
        Err(ItemError::KindMismatch { found: ItemKind::Event, expected: ItemKind::Function })
    );
    let rc = AbiItem::Receive(Receive { state_mutability: StateMutability::Payable });
    assert_eq!(
        validate_item(rc, ItemKind::Receive),
        Ok(AbiItem::Receive(Receive { state_mutability: StateMutability::Payable }))
    );
}

#[test]
fn identifier_rules() {
    assert!(is_valid_identifier("_ok1"));
    assert!(is_valid_identifier("$x"));
    assert!(!is_valid_identifier("123bad"));
    assert!(!is_valid_identifier(""));
    assert!(!is_valid_identifier("a-b"));
}
