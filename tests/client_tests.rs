use contentful::delivery::{entries_from_response, entry_from_response, query_for_type};
use contentful::error::ContentError;
use contentful::http::{read_outcome, write_succeeded, Method, ReadOutcome};
use contentful::json::Json;
use contentful::locale::convert_json_object_to_typed_entry;
use contentful::management::{created_fields, entry_json, fields_body, updated_entry};
use contentful::models::{Entry, SystemProperties};
use contentful::{ContentfulClient, ContentfulManagementClient, QueryBuilder};

fn s(x: &str) -> Json {
    Json::Str(x.to_string())
}

fn obj(members: Vec<(&str, Json)>) -> Json {
    Json::Object(members.into_iter().map(|(k, v)| (k.to_string(), v)).collect())
}

fn get<'a>(v: &'a Json, key: &str) -> &'a Json {
    match v {
        Json::Object(ms) => &ms.iter().find(|(k, _)| k == key).unwrap().1,
        _ => panic!("not an object"),
    }
}

#[test]
fn delivery_urls() {
    let c = ContentfulClient::new("token", "space1");
    assert_eq!(
        c.get_entry_url("E1"),
        "https://cdn.contentful.com/spaces/space1/environments/master/entries/E1"
    );
    assert_eq!(
        c.get_query_string_url("?content_type=person"),
        "https://cdn.contentful.com/spaces/space1/environments/master/entries?content_type=person"
    );
    let staged = ContentfulClient::with_environment::<String>("token", "space1", "staging");
    assert_eq!(
        staged.get_entry_url("E2"),
        "https://cdn.contentful.com/spaces/space1/environments/staging/entries/E2"
    );
    let r = c.entry_request("E1");
    assert_eq!(r.method, Method::Get);
    assert_eq!(r.bearer_token, "token");
    assert!(r.body.is_none());
}

#[test]
fn entries_request_renders_the_descriptor() {
    let c = ContentfulClient::new("token", "space1");
    let none = c.entries_request(None);
    assert_eq!(none.url, "https://cdn.contentful.com/spaces/space1/environments/master/entries");
    let some = c.entries_request(Some(QueryBuilder::new().field_equals("fields.name", "Saju")));
    assert_eq!(
        some.url,
        "https://cdn.contentful.com/spaces/space1/environments/master/entries?fields.name=Saju"
    );
}

#[test]
fn missing_entry_is_absent_not_an_error() {
    assert_eq!(read_outcome(404), ReadOutcome::NotFound);
    assert_eq!(entry_from_response(404, &Json::Null), Ok(None));
    assert_eq!(entry_from_response(500, &Json::Null), Err(ContentError::UnexpectedStatus(500)));
    assert_eq!(read_outcome(200), ReadOutcome::Found);
    assert_eq!(read_outcome(401), ReadOutcome::Failed);
}

#[test]
fn found_entry_carries_its_sys() {
    let body = obj(vec![
        ("sys", obj(vec![("id", s("E1")), ("type", s("Entry"))])),
        ("fields", obj(vec![("name", s("Saju"))])),
    ]);
    let r = entry_from_response(200, &body).unwrap().unwrap();
    assert_eq!(get(&r, "name"), &s("Saju"));
    assert_eq!(get(get(&r, "sys"), "id"), &s("E1"));
}

#[test]
fn entries_by_type_with_asset_link() {
    let q = query_for_type("person", Some(QueryBuilder::new().field_equals("fields.name", "Saju")));
    let built = q.build();
    assert!(built == "?fields.name=Saju&content_type=person");
    let c = ContentfulClient::new("token", "space1");
    let req = c.entries_request(Some(query_for_type("person", None)));
    assert!(req.url.ends_with("/entries?content_type=person"));

    let file = obj(vec![
        ("url", s("//images.example/saju.png")),
        ("fileName", s("saju.png")),
        ("contentType", s("image/png")),
    ]);
    let image_link = obj(vec![(
        "sys",
        obj(vec![("type", s("Link")), ("linkType", s("Asset")), ("id", s("A1"))]),
    )]);
    let page = obj(vec![
        (
            "items",
            Json::Array(vec![obj(vec![
                ("sys", obj(vec![("type", s("Entry")), ("id", s("E1"))])),
                ("fields", obj(vec![("name", s("Saju")), ("image", image_link)])),
            ])]),
        ),
        (
            "includes",
            obj(vec![(
                "Asset",
                Json::Array(vec![obj(vec![
                    ("sys", obj(vec![("type", s("Asset")), ("id", s("A1"))])),
                    ("fields", obj(vec![("title", s("Saju")), ("file", file.deep_copy())])),
                ])]),
            )]),
        ),
    ]);
    let items = entries_from_response(200, &page).unwrap();
    assert_eq!(items.len(), 1);
    assert_eq!(get(&items[0], "name"), &s("Saju"));
    assert_eq!(get(get(&items[0], "image"), "file"), &file);
    assert_eq!(entries_from_response(404, &page), Err(ContentError::UnexpectedStatus(404)));
}

#[test]
fn create_for_locale_spreads_and_projects_back() {
    let m = ContentfulManagementClient::new("mtoken", "space1");
    let entry = obj(vec![("name", s("Ada"))]);
    let req = m.create_for_locale_request(&entry, "person", "en-US").unwrap();
    assert_eq!(req.method, Method::Post);
    assert_eq!(req.url, "https://api.contentful.com/spaces/space1/environments/master/entries");
    assert_eq!(req.content_type_id.as_deref(), Some("person"));
    let body = req.body.unwrap();
    assert_eq!(get(get(get(&body, "fields"), "name"), "en-US"), &s("Ada"));

    let response = obj(vec![
        ("sys", obj(vec![("id", s("new-id")), ("version", Json::Number("1".to_string()))])),
        ("fields", obj(vec![("name", obj(vec![("en-US", s("Ada"))]))])),
    ]);
    let fields = created_fields(201, &response).unwrap();
    let projected = convert_json_object_to_typed_entry(&fields, "en-US").unwrap();
    assert_eq!(projected, obj(vec![("name", s("Ada"))]));
    assert_eq!(created_fields(400, &response), Err(ContentError::UnexpectedStatus(400)));
    assert_eq!(created_fields(200, &obj(vec![])), Err(ContentError::MalformedEntry));
}

#[test]
fn update_without_version_is_refused() {
    let m = ContentfulManagementClient::new("mtoken", "space1");
    let entry = Entry::new(obj(vec![("name", obj(vec![("en-US", s("Ada"))]))]), SystemProperties::new("E1".to_string()));
    assert_eq!(m.update_entry_request(&entry, "E1", "person").unwrap_err(), ContentError::MissingVersion);
    let flat = Entry::new(obj(vec![("name", s("Ada"))]), SystemProperties::new("E1".to_string()));
    assert_eq!(m.update_for_locale_request(&flat, "E1", "en-US", "person").unwrap_err(), ContentError::MissingVersion);
}

#[test]
fn update_sends_the_version() {
    let m = ContentfulManagementClient::new("mtoken", "space1");
    let entry = Entry::new(obj(vec![("name", s("Ada"))]), SystemProperties::with_version("E1".to_string(), 13));
    let req = m.update_for_locale_request(&entry, "E1", "en-US", "person").unwrap();
    assert_eq!(req.method, Method::Put);
    assert_eq!(req.version, Some(13));
    assert_eq!(req.url, "https://api.contentful.com/spaces/space1/environments/master/entries/E1");
    let body = req.body.unwrap();
    assert_eq!(get(get(get(&body, "fields"), "name"), "en-US"), &s("Ada"));
    assert_eq!(get(get(&body, "sys"), "version"), &Json::Number("13".to_string()));
    assert_eq!(get(get(&body, "sys"), "revision"), &Json::Null);
}

#[test]
fn entry_json_and_bodies() {
    let mut sys = SystemProperties::with_version("E9".to_string(), -7);
    sys.created_at = Some("2021-01-08T10:00:00Z".to_string());
    let e = Entry::new(obj(vec![("a", s("b"))]), sys);
    let j = entry_json(&e);
    assert_eq!(get(get(&j, "sys"), "id"), &s("E9"));
    assert_eq!(get(get(&j, "sys"), "version"), &Json::Number("-7".to_string()));
    assert_eq!(get(get(&j, "sys"), "createdAt"), &s("2021-01-08T10:00:00Z"));
    assert_eq!(get(&j, "fields"), &obj(vec![("a", s("b"))]));
    assert_eq!(fields_body(s("x")), obj(vec![("fields", s("x"))]));
    assert!(write_succeeded(201));
    assert!(!write_succeeded(404));
    assert_eq!(updated_entry(200, s("ok")), Ok(s("ok")));
    assert_eq!(updated_entry(409, s("ok")), Err(ContentError::UnexpectedStatus(409)));
}

#[test]
fn management_entry_request() {
    let m = ContentfulManagementClient::new("mtoken", "space1");
    let r = m.entry_request("E1");
    assert_eq!(r.url, "https://api.contentful.com/spaces/space1/environments/master/entries/E1");
    assert_eq!(r.bearer_token, "mtoken");
    let u = m.update_request(s("body"), "E1", 3, "person");
    assert_eq!(u.version, Some(3));
    assert_eq!(u.body, Some(s("body")));
}
