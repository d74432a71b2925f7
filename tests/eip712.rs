use json_abi::{ComponentType, EncodeType, Eip712Error, PropDef};

const EXAMPLE: &str = "Transaction(Person from,Person to,Asset tx)Asset(address token,uint256 amount)Person(address wallet,string name)";

#[test]
fn test_component_type() {
    assert_eq!(
        ComponentType::parse("Transaction(Person from,Person to,Asset tx)"),
        Ok(ComponentType {
            span: "Transaction(Person from,Person to,Asset tx)".to_string(),
            name: "Transaction".to_string(),
            props: vec![
                PropDef::parse("Person from").unwrap(),
                PropDef::parse("Person to").unwrap(),
                PropDef::parse("Asset tx").unwrap(),
            ],
        })
    );
}

#[test]
fn test_encode_type() {
    assert_eq!(
        EncodeType::parse(EXAMPLE),
        Ok(EncodeType {
            types: vec![
                ComponentType::parse("Transaction(Person from,Person to,Asset tx)").unwrap(),
                ComponentType::parse("Asset(address token,uint256 amount)").unwrap(),
                ComponentType::parse("Person(address wallet,string name)").unwrap(),
            ]
        })
    );
}

#[test]
fn component_type_fields() {
    let c = ComponentType::parse("Transaction(Person from,Person to,Asset tx)Asset(address token)").unwrap();
    assert_eq!(c.span, "Transaction(Person from,Person to,Asset tx)");
    assert_eq!(c.name, "Transaction");
    let props: Vec<(&str, &str)> = c.props.iter().map(|p| (p.ty.as_str(), p.name.as_str())).collect();
    assert_eq!(props, vec![("Person", "from"), ("Person", "to"), ("Asset", "tx")]);
}

#[test]
fn component_type_nested_tuple_property() {
    let c = ComponentType::parse("Mail((address,uint256)[2] pair,string body)").unwrap();
    assert_eq!(c.props.len(), 2);
    assert_eq!(c.props[0].ty, "(address,uint256)[2]");
    assert_eq!(c.props[0].name, "pair");
    assert_eq!(c.props[1].name, "body");
}

#[test]
fn component_type_errors() {
    assert_eq!(
        ComponentType::parse("NoParen"),
        Err(Eip712Error::InvalidTypeString("NoParen".to_string()))
    );
    assert_eq!(
        ComponentType::parse("Mail(address)"),
        Err(Eip712Error::InvalidPropertyDef("address".to_string()))
    );
}

#[test]
fn prop_def_splits_at_last_space() {
    let p = PropDef::parse("uint256 foo").unwrap();
    assert_eq!(p.ty, "uint256");
    assert_eq!(p.name, "foo");
    assert_eq!(PropDef::parse("foo"), Err(Eip712Error::InvalidPropertyDef("foo".to_string())));
    assert_eq!(
        PropDef::parse("uint256[x] foo"),
        Err(Eip712Error::InvalidTypeString("uint256[x]".to_string()))
    );
}

#[test]
fn encode_type_stops_at_unreadable_rest() {
    let e = EncodeType::parse("Mail(address to)garbage").unwrap();
    assert_eq!(e.types.len(), 1);
    assert_eq!(e.types[0].name, "Mail");
    let empty = EncodeType::parse("").unwrap();
    assert!(empty.types.is_empty());
    let bad = EncodeType::parse("Mail(address to)Other(x)").unwrap();
    assert_eq!(bad.types.len(), 1);
}
