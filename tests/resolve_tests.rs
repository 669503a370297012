use contentful::error::ContentError;
use contentful::json::Json;
use contentful::resolve::{fields_with_sys, resolve, resolve_node, resolve_page};

fn s(x: &str) -> Json {
    Json::Str(x.to_string())
}

fn num(x: &str) -> Json {
    Json::Number(x.to_string())
}

fn obj(members: Vec<(&str, Json)>) -> Json {
    Json::Object(members.into_iter().map(|(k, v)| (k.to_string(), v)).collect())
}

fn sys(kind: &str, id: &str) -> Json {
    obj(vec![("type", s(kind)), ("id", s(id))])
}

fn link(link_type: &str, id: &str) -> Json {
    obj(vec![("sys", obj(vec![("type", s("Link")), ("linkType", s(link_type)), ("id", s(id))]))])
}

fn entry(id: &str, fields: Json) -> Json {
    obj(vec![("sys", sys("Entry", id)), ("fields", fields)])
}

fn asset(id: &str, fields: Json) -> Json {
    obj(vec![("sys", sys("Asset", id)), ("fields", fields)])
}

fn includes(entries: Vec<Json>, assets: Vec<Json>) -> Json {
    obj(vec![("Entry", Json::Array(entries)), ("Asset", Json::Array(assets))])
}

#[test]
fn entry_without_links_resolves_to_its_fields() {
    let fields = obj(vec![
        ("name", s("Saju")),
        ("age", num("41")),
        ("tags", Json::Array(vec![s("a"), Json::Bool(true), Json::Null])),
        ("payload", obj(vec![("deep", obj(vec![("x", num("1"))]))])),
    ]);
    let e = entry("E1", fields.deep_copy());
    let r = resolve(&e, &includes(vec![], vec![])).unwrap();
    assert_eq!(r, fields);
}

#[test]
fn entry_link_is_replaced_by_resolved_fields() {
    let product = entry("P1", obj(vec![("title", s("Bike")), ("maker", link("Entry", "M1"))]));
    let maker = entry("M1", obj(vec![("name", s("Acme"))]));
    let person = entry("E1", obj(vec![("name", s("Saju")), ("favoriteProduct", link("Entry", "P1"))]));
    let inc = includes(vec![product, maker], vec![]);
    let r = resolve(&person, &inc).unwrap();
    let expected = obj(vec![
        ("name", s("Saju")),
        ("favoriteProduct", obj(vec![("title", s("Bike")), ("maker", obj(vec![("name", s("Acme"))]))])),
    ]);
    assert_eq!(r, expected);
}

#[test]
fn unmatched_link_is_left_as_it_was() {
    let stub = link("Entry", "missing");
    let inc = includes(vec![entry("other", obj(vec![("x", num("1"))]))], vec![]);
    assert_eq!(resolve(&stub, &inc).unwrap(), link("Entry", "missing"));
    let asset_stub = link("Asset", "missing");
    assert_eq!(resolve(&asset_stub, &inc).unwrap(), link("Asset", "missing"));
}

#[test]
fn link_without_side_table_is_left_as_it_was() {
    let stub = link("Entry", "X");
    assert_eq!(resolve(&stub, &Json::Null).unwrap(), link("Entry", "X"));
}

#[test]
fn duplicate_ids_resolve_to_the_first() {
    let first = entry("X", obj(vec![("n", s("first"))]));
    let second = entry("X", obj(vec![("n", s("second"))]));
    let inc = includes(vec![first, second], vec![]);
    for _ in 0..3 {
        let r = resolve(&link("Entry", "X"), &inc).unwrap();
        assert_eq!(r, obj(vec![("n", s("first"))]));
    }
}

#[test]
fn asset_link_is_replaced_by_asset_fields() {
    let file = obj(vec![("url", s("//images/a.png")), ("fileName", s("a.png"))]);
    let a = asset("A1", obj(vec![("title", s("Portrait")), ("file", file.deep_copy())]));
    let inc = includes(vec![], vec![a]);
    let r = resolve(&link("Asset", "A1"), &inc).unwrap();
    assert_eq!(r, obj(vec![("title", s("Portrait")), ("file", file)]));
}

#[test]
fn cycle_of_entries_stops_at_the_depth_bound() {
    let a = entry("A", obj(vec![("next", link("Entry", "B"))]));
    let b = entry("B", obj(vec![("next", link("Entry", "A"))]));
    let inc = includes(vec![a, b], vec![]);
    let r = resolve_node(&link("Entry", "A"), &inc, 2).unwrap();
    let expected = obj(vec![("next", obj(vec![("next", link("Entry", "A"))]))]);
    assert_eq!(r, expected);
    assert!(resolve(&link("Entry", "A"), &inc).is_ok());
}

#[test]
fn depth_zero_leaves_entry_links() {
    let inc = includes(vec![entry("A", obj(vec![]))], vec![]);
    assert_eq!(resolve_node(&link("Entry", "A"), &inc, 0).unwrap(), link("Entry", "A"));
}

#[test]
fn rich_text_and_plain_objects_stay_whole() {
    let rich = obj(vec![("sys", sys("Other", "R")), ("nodeType", s("document"))]);
    assert_eq!(resolve(&rich, &Json::Null).unwrap(), rich.deep_copy());
    let plain = obj(vec![("inner", link("Entry", "A"))]);
    let inc = includes(vec![entry("A", obj(vec![]))], vec![]);
    assert_eq!(resolve(&plain, &inc).unwrap(), plain.deep_copy());
}

#[test]
fn unsupported_shapes_are_errors() {
    let odd = obj(vec![("sys", sys("Space", "S"))]);
    assert_eq!(resolve(&odd, &Json::Null), Err(ContentError::UnsupportedNode));
    let no_type = obj(vec![("sys", obj(vec![("id", s("x"))]))]);
    assert_eq!(resolve(&no_type, &Json::Null), Err(ContentError::MissingSysType));
    let bad_link = link("Space", "x");
    assert_eq!(resolve(&bad_link, &Json::Null), Err(ContentError::UnknownLinkType));
    let no_fields = obj(vec![("sys", sys("Entry", "E"))]);
    assert_eq!(resolve(&no_fields, &Json::Null), Err(ContentError::MalformedEntry));
    let bad_asset = asset("A", s("not fields"));
    let inc = includes(vec![], vec![bad_asset]);
    assert_eq!(resolve(&link("Asset", "A"), &inc), Err(ContentError::MalformedAsset));
}

#[test]
fn arrays_resolve_in_order() {
    let inc = includes(vec![entry("A", obj(vec![("n", num("1"))]))], vec![]);
    let arr = Json::Array(vec![s("x"), link("Entry", "A"), num("3"), Json::Array(vec![link("Entry", "A")])]);
    let expected = Json::Array(vec![
        s("x"),
        obj(vec![("n", num("1"))]),
        num("3"),
        Json::Array(vec![obj(vec![("n", num("1"))])]),
    ]);
    assert_eq!(resolve(&arr, &inc).unwrap(), expected);
}

#[test]
fn page_items_are_resolved_against_includes() {
    let page = obj(vec![
        ("items", Json::Array(vec![entry("E1", obj(vec![("friend", link("Entry", "E2"))]))])),
        ("includes", includes(vec![entry("E2", obj(vec![("name", s("Ada"))]))], vec![])),
    ]);
    let items = resolve_page(&page).unwrap();
    assert_eq!(items, vec![obj(vec![("friend", obj(vec![("name", s("Ada"))]))])]);
}

#[test]
fn page_without_items_is_empty_and_bad_items_fail() {
    assert_eq!(resolve_page(&obj(vec![("total", num("0"))])).unwrap(), vec![]);
    assert_eq!(resolve_page(&obj(vec![("items", s("x"))])), Err(ContentError::ItemsNotArray));
    let no_includes = obj(vec![("items", Json::Array(vec![entry("E1", obj(vec![("a", num("1"))]))]))]);
    assert_eq!(resolve_page(&no_includes).unwrap(), vec![obj(vec![("a", num("1"))])]);
}

#[test]
fn fields_get_the_sys_envelope() {
    let e = entry("E1", obj(vec![("name", s("Saju"))]));
    let r = fields_with_sys(&e).unwrap();
    assert_eq!(r, obj(vec![("name", s("Saju")), ("sys", sys("Entry", "E1"))]));
    assert_eq!(fields_with_sys(&obj(vec![("sys", sys("Entry", "E"))])), Err(ContentError::MalformedEntry));
}

#[test]
fn same_as_compares_values() {
    assert!(link("Entry", "A").same_as(&link("Entry", "A")));
    assert!(!link("Entry", "A").same_as(&link("Entry", "B")));
    assert!(!s("1").same_as(&num("1")));
}
