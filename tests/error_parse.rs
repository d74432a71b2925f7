use json_abi::{parse_params, Error, Param};

#[test]
fn test1() {
    let error_str = "Myerror(uint256 a,(address,uint256) arg2)";
    let err = Error::parse(error_str).unwrap();
    println!("{:#?}", err);
}

#[test]
fn test2() {
    let error_str = "Myerror((address,uint256) arg2)";
    let err = Error::parse(error_str).unwrap();
    println!("{:#?}", err);
}

#[test]
fn test3() {
    let error_str =
        "Myerror(uint256 a,(address,uint256) arg2,(address,uint256,(uint256,uint256[2])) arg3)";
    let err = Error::parse(error_str).unwrap();
    println!("{:#?}", err);
}

#[test]
fn test4() {
    let error_str = "Myerror((address,(uint256,uint256[2])) arg3)";
    let err = Error::parse(error_str).unwrap();
    println!("{:#?}", err);
}

fn leaf(name: &str, ty: &str) -> Param {
    Param {
        name: name.to_string(),
        ty: ty.to_string(),
        components: vec![],
        internal_type: Some(ty.to_string()),
    }
}

#[test]
fn parse_error_with_tuple_param() {
    let err = Error::parse("Myerror(uint256 a,(address,uint256) arg2)").unwrap();
    assert_eq!(err.name, "Myerror");
    assert_eq!(err.inputs.len(), 2);
    assert_eq!(err.inputs[0], leaf("a", "uint256"));
    let arg2 = &err.inputs[1];
    assert_eq!(arg2.name, "arg2");
    assert_eq!(arg2.ty, "tuple");
    assert_eq!(arg2.components, vec![leaf("", "address"), leaf("", "uint256")]);
    assert_eq!(arg2.internal_type.as_deref(), Some("(address,uint256)"));
}

#[test]
fn parse_error_nested_tuple_keeps_array_suffix() {
    let err = Error::parse("Myerror((address,(uint256,uint256[2])[3]) arg3)").unwrap();
    let arg3 = &err.inputs[0];
    assert_eq!(arg3.ty, "tuple");
    assert_eq!(arg3.components[0], leaf("", "address"));
    let inner = &arg3.components[1];
    assert_eq!(inner.ty, "tuple[3]");
    assert_eq!(inner.components, vec![leaf("", "uint256"), leaf("", "uint256[2]")]);
    assert_eq!(err.signature(), "Myerror((address,(uint256,uint256[2])[3]))");
}

#[test]
fn parse_error_signature_round_trip() {
    let text = "Myerror(uint256,(address,uint256),(address,uint256,(uint256,uint256[2]))[])";
    let err = Error::parse(
        "Myerror(uint256 a,(address,uint256) arg2,(address,uint256,(uint256,uint256[2]))[] arg3)",
    )
    .unwrap();
    assert_eq!(err.signature(), text);
}

#[test]
fn parse_error_without_params() {
    let err = Error::parse("Empty()").unwrap();
    assert_eq!(err.name, "Empty");
    assert!(err.inputs.is_empty());
    assert_eq!(err.signature(), "Empty()");
}

#[test]
fn parse_error_missing_paren() {
    assert_eq!(Error::parse("Myerror"), Err("No opening parenthesis found".to_string()));
}

#[test]
fn parse_error_missing_name() {
    assert_eq!(Error::parse("Myerror(uint256)"), Err("Incorrect format used".to_string()));
}

#[test]
fn parse_error_bad_type() {
    assert_eq!(Error::parse("Myerror((uint256 a)"), Err("Incorrect format used".to_string()));
    assert_eq!(Error::parse("Myerror(uint256[x] a)"), Err("Incorrect format used".to_string()));
}

#[test]
fn parse_params_splits_top_level_commas_only() {
    let ps = parse_params(" uint256 a , (bool,address) b").unwrap();
    assert_eq!(ps.len(), 2);
    assert_eq!(ps[0].name, "a");
    assert_eq!(ps[1].ty, "tuple");
    assert_eq!(ps[1].components.len(), 2);
    assert_eq!(parse_params(""), Ok(vec![]));
    assert_eq!(parse_params("uint256 a,,bool b"), Err("Incorrect format used".to_string()));
}
