use contentful::error::ContentError;
use contentful::json::Json;
use contentful::locale::{convert_json_object_to_typed_entry, reconstruct_json_object};

fn s(x: &str) -> Json {
    Json::Str(x.to_string())
}

fn obj(members: Vec<(&str, Json)>) -> Json {
    Json::Object(members.into_iter().map(|(k, v)| (k.to_string(), v)).collect())
}

#[test]
fn inflate_spreads_each_field_over_the_locale() {
    let fields = obj(vec![("name", s("Ada")), ("age", Json::Number("36".to_string()))]);
    let r = reconstruct_json_object(&fields, "en-US").unwrap();
    let expected = obj(vec![
        ("name", obj(vec![("en-US", s("Ada"))])),
        ("age", obj(vec![("en-US", Json::Number("36".to_string()))])),
    ]);
    assert_eq!(r, expected);
}

#[test]
fn project_then_inflate_round_trip() {
    let fields = obj(vec![("name", s("Ada")), ("active", Json::Bool(false)), ("note", Json::Null)]);
    let spread = reconstruct_json_object(&fields, "de-DE").unwrap();
    let back = convert_json_object_to_typed_entry(&spread, "de-DE").unwrap();
    assert_eq!(back, fields);
}

#[test]
fn project_picks_the_requested_locale() {
    let raw = obj(vec![
        ("name", obj(vec![("en-US", s("Saju")), ("de-DE", s("Saju DE"))])),
        ("title", obj(vec![("de-DE", s("Herr")), ("en-US", s("Mr"))])),
    ]);
    let r = convert_json_object_to_typed_entry(&raw, "en-US").unwrap();
    assert_eq!(r, obj(vec![("name", s("Saju")), ("title", s("Mr"))]));
}

#[test]
fn inflate_refuses_nested_values_and_non_objects() {
    let nested = obj(vec![("tags", Json::Array(vec![s("a")]))]);
    assert_eq!(reconstruct_json_object(&nested, "en-US"), Err(ContentError::NestedValue));
    let inner = obj(vec![("inner", obj(vec![]))]);
    assert_eq!(reconstruct_json_object(&inner, "en-US"), Err(ContentError::NestedValue));
    assert_eq!(reconstruct_json_object(&s("x"), "en-US"), Err(ContentError::NotAnObject));
}

#[test]
fn project_refuses_fields_without_the_locale() {
    let raw = obj(vec![("name", obj(vec![("de-DE", s("Saju"))]))]);
    assert_eq!(convert_json_object_to_typed_entry(&raw, "en-US"), Err(ContentError::MissingLocale));
    let flat = obj(vec![("name", s("Saju"))]);
    assert_eq!(convert_json_object_to_typed_entry(&flat, "en-US"), Err(ContentError::MissingLocale));
    assert_eq!(convert_json_object_to_typed_entry(&Json::Null, "en-US"), Err(ContentError::NotAnObject));
}
