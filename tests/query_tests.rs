use contentful::QueryBuilder;
use std::collections::BTreeSet;

fn parsed(q: &str) -> BTreeSet<(String, String)> {
    if q.is_empty() {
        return BTreeSet::new();
    }
    assert!(q.starts_with('?'));
    q[1..]
        .split('&')
        .map(|p| {
            let (k, v) = p.split_once('=').unwrap();
            (k.to_string(), v.to_string())
        })
        .collect()
}

fn set(pairs: &[(&str, &str)]) -> BTreeSet<(String, String)> {
    pairs.iter().map(|(k, v)| (k.to_string(), v.to_string())).collect()
}

#[test]
fn empty_descriptor_builds_nothing() {
    assert_eq!(QueryBuilder::new().build(), "");
}

#[test]
fn later_setting_of_a_key_wins() {
    let q = QueryBuilder::new()
        .field_equals("fields.name", "Saju")
        .order_by("sys.createdAt")
        .field_equals("fields.name", "Ada");
    assert_eq!(parsed(&q.build()), set(&[("fields.name", "Ada"), ("order", "sys.createdAt")]));
    assert_eq!(q.build(), "?fields.name=Ada&order=sys.createdAt");
}

#[test]
fn build_parses_back_to_the_parameters() {
    let q = QueryBuilder::new()
        .content_type_is("person")
        .field_equals("fields.name", "Saju")
        .include_levels(2)
        .limit(10)
        .skip(-5)
        .locale_is("locale", "en-US")
        .select_fields("fields.title,fields.description");
    let expected = set(&[
        ("content_type", "person"),
        ("fields.name", "Saju"),
        ("\x69nclude", "2"),
        ("limit", "10"),
        ("skip", "-5"),
        ("locale", "en-US"),
        ("select", "fields.title,fields.description"),
    ]);
    assert_eq!(parsed(&q.build()), expected);
}

#[test]
fn field_operators_name_their_parameters() {
    let q = QueryBuilder::new()
        .field_does_not_equal("fields.a", "1")
        .field_equals_all("fields.b", "x,y")
        .field_includes("fields.c", "x")
        .field_excludes("fields.d", "y")
        .field_exists("fields.e", true)
        .field_exists("fields.f", false)
        .field_less_than("fields.g", "3")
        .field_less_than_or_equal_to("fields.h", "4")
        .field_greater_than("fields.i", "5")
        .field_greater_than_or_equal_to("fields.j", "6")
        .field_matches("fields.k", "bike")
        .links_to_entry("E1")
        .links_to_asset("A1")
        .add_field_restriction("fields.l", "7", "[near]");
    let expected = set(&[
        ("fields.a[ne]", "1"),
        ("fields.b[all]", "x,y"),
        ("fields.c[in]", "x"),
        ("fields.d[nin]", "y"),
        ("fields.e[exists]", "true"),
        ("fields.f[exists]", "false"),
        ("fields.g[lt]", "3"),
        ("fields.h[lte]", "4"),
        ("fields.i[gt]", "5"),
        ("fields.j[gte]", "6"),
        ("fields.k[match]", "bike"),
        ("links_to_entry", "E1"),
        ("links_to_asset", "A1"),
        ("fields.l[near]", "7"),
    ]);
    assert_eq!(parsed(&q.build()), expected);
}

#[test]
fn numbers_are_written_in_decimal() {
    assert_eq!(QueryBuilder::new().limit(0).build(), "?limit=0");
    assert_eq!(QueryBuilder::new().skip(i32::MIN).build(), "?skip=-2147483648");
    assert_eq!(QueryBuilder::new().include_levels(1234).build(), "?\x69nclude=1234");
}
