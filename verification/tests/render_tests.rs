use intelligence_capital_ledger::attr::render_json;
use intelligence_capital_ledger::AttrValue;

#[test]
fn renders_scalars_and_nesting() {
    let value = AttrValue::Obj(vec![
        ("name".to_string(), AttrValue::Str("model-a".to_string())),
        ("active".to_string(), AttrValue::Bool(true)),
        ("score".to_string(), AttrValue::Int(-42)),
        ("tags".to_string(), AttrValue::Arr(vec![
            AttrValue::Str("x".to_string()),
            AttrValue::Null,
            AttrValue::Int(3),
        ])),
    ]);
    assert_eq!(
        render_json(&value),
        "{\"name\":\"model-a\",\"active\":true,\"score\":-42,\"tags\":[\"x\",null,3]}"
    );
}

#[test]
fn escapes_special_characters() {
    let value = AttrValue::Str("a\"b\\c\nd".to_string());
    assert_eq!(render_json(&value), "\"a\\\"b\\\\c\\nd\"");
}

#[test]
fn renders_empty_containers() {
    assert_eq!(render_json(&AttrValue::Obj(Vec::new())), "{}");
    assert_eq!(render_json(&AttrValue::Arr(Vec::new())), "[]");
}
