use vstd::prelude::*;

use crate::error::ContentError;
use crate::json::{Json, JsonV, is_scalar, key_pos, member, members_view};
use crate::resolve::result_view;

verus! {

/// A value written for a single locale: `{locale: v}`.
pub open spec fn localized(locale: Seq<char>, v: JsonV) -> JsonV {
    JsonV::Object(seq![(locale, v)])
}

/// Fields spread over one locale: each field `name: v` becomes
/// `name: {locale: v}`. Only fields holding a string, number, boolean or
/// null can be spread.
pub open spec fn inflate_spec(fields: JsonV, locale: Seq<char>) -> Result<JsonV, ContentError> {
    match fields {
        JsonV::Object(ms) => {
            if forall|i: int| 0 <= i < ms.len() ==> is_scalar(#[trigger] ms[i].1) {
                Ok(
                    JsonV::Object(
                        ms.map_values(
                            |m: (Seq<char>, JsonV)| (m.0, localized(locale, m.1)),
                        ),
                    ),
                )
            } else {
                Err(ContentError::NestedValue)
            }
        },
        _ => Err(ContentError::NotAnObject),
    }
}

/// Locale-keyed fields narrowed to one locale: each field
/// `name: {.., locale: v, ..}` becomes `name: v`. Every field must have a
/// value for the locale.
pub open spec fn project_spec(fields: JsonV, locale: Seq<char>) -> Result<JsonV, ContentError> {
    match fields {
        JsonV::Object(ms) => {
            if forall|i: int| 0 <= i < ms.len() ==> (#[trigger] member(ms[i].1, locale)) is Some {
                Ok(
                    JsonV::Object(
                        ms.map_values(|m: (Seq<char>, JsonV)| (m.0, member(m.1, locale)->0)),
                    ),
                )
            } else {
                Err(ContentError::MissingLocale)
            }
        },
        _ => Err(ContentError::NotAnObject),
    }
}

/// Spreads each field of `entry` over `locale`, the shape in which the
/// management service takes fields.
pub fn reconstruct_json_object(entry: &Json, locale: &str) -> (r: Result<Json, ContentError>)
    ensures
        result_view(r) == inflate_spec(entry@, locale@),
{
    match entry {
        Json::Object(ms) => {
            proof {
                Json::lemma_object_view(*ms);
            }
            let ghost src = members_view(ms@);
            let mut out: Vec<(String, Json)> = Vec::new();
            let mut i: usize = 0;
            while i < ms.len()
                invariant
                    *entry == Json::Object(*ms),
                    i <= ms.len(),
                    src == members_view(ms@),
                    src.len() == ms.len(),
                    forall|j: int|
                        0 <= j < ms.len() ==> #[trigger] src[j] == (ms@[j].0@, ms@[j].1@),
                    forall|j: int| 0 <= j < i ==> is_scalar(#[trigger] src[j].1),
                    out.len() == i,
                    forall|j: int|
                        0 <= j < i ==> #[trigger] members_view(out@)[j] == (
                            src[j].0,
                            localized(locale@, src[j].1),
                        ),
                    members_view(out@).len() == i,
                decreases ms.len() - i,
            {
                let v = &ms[i].1;
                match v {
                    Json::Array(_) => {
                        assert(!is_scalar(src[i as int].1));
                        return Err(ContentError::NestedValue);
                    },
                    Json::Object(_) => {
                        assert(!is_scalar(src[i as int].1));
                        return Err(ContentError::NestedValue);
                    },
                    _ => {},
                }
                let inner: Vec<(String, Json)> = vec![(locale.to_owned(), v.deep_copy())];
                proof {
                    Json::lemma_object_view(inner);
                    assert(members_view(inner@) =~= seq![(locale@, v@)]);
                }
                let ghost before = out@;
                out.push((ms[i].0.clone(), Json::Object(inner)));
                proof {
                    Json::lemma_object_view(out);
                    crate::json::lemma_view_members_vec(before);
                    assert(is_scalar(src[i as int].1));
                    assert forall|j: int| 0 <= j < i implies #[trigger] members_view(out@)[j]
                        == members_view(before)[j] by {
                        assert(out@[j] == before[j]);
                    }
                    assert(members_view(out@)[i as int] == (
                        src[i as int].0,
                        localized(locale@, src[i as int].1),
                    ));
                }
                i = i + 1;
            }
            proof {
                Json::lemma_object_view(out);
                assert(members_view(out@) =~= src.map_values(
                    |m: (Seq<char>, JsonV)| (m.0, localized(locale@, m.1)),
                ));
            }
            Ok(Json::Object(out))
        },
        _ => Err(ContentError::NotAnObject),
    }
}

/// Narrows each locale-keyed field of `entry_json` to its value for
/// `locale`, the shape of a single-locale typed value.
pub fn convert_json_object_to_typed_entry(entry_json: &Json, locale: &str) -> (r: Result<
    Json,
    ContentError,
>)
    ensures
        result_view(r) == project_spec(entry_json@, locale@),
{
    match entry_json {
        Json::Object(ms) => {
            proof {
                Json::lemma_object_view(*ms);
            }
            let ghost src = members_view(ms@);
            let key = locale.to_owned();
            let mut out: Vec<(String, Json)> = Vec::new();
            let mut i: usize = 0;
            while i < ms.len()
                invariant
                    *entry_json == Json::Object(*ms),
                    key@ == locale@,
                    i <= ms.len(),
                    src == members_view(ms@),
                    src.len() == ms.len(),
                    forall|j: int|
                        0 <= j < ms.len() ==> #[trigger] src[j] == (ms@[j].0@, ms@[j].1@),
                    forall|j: int| 0 <= j < i ==> (#[trigger] member(src[j].1, locale@)) is Some,
                    out.len() == i,
                    forall|j: int|
                        0 <= j < i ==> #[trigger] members_view(out@)[j] == (
                            src[j].0,
                            member(src[j].1, locale@)->0,
                        ),
                    members_view(out@).len() == i,
                decreases ms.len() - i,
            {
                match ms[i].1.get(&key) {
                    Some(x) => {
                        let ghost before = out@;
                        out.push((ms[i].0.clone(), x.deep_copy()));
                        proof {
                            Json::lemma_object_view(out);
                            crate::json::lemma_view_members_vec(before);
                            assert(members_view(out@)[i as int] == (
                                src[i as int].0,
                                member(src[i as int].1, locale@)->0,
                            ));
                            assert forall|j: int| 0 <= j < i implies #[trigger] members_view(
                                out@,
                            )[j] == members_view(before)[j] by {
                                assert(out@[j] == before[j]);
                            }
                        }
                    },
                    None => {
                        assert(member(src[i as int].1, locale@) is None);
                        return Err(ContentError::MissingLocale);
                    },
                }
                i = i + 1;
            }
            proof {
                Json::lemma_object_view(out);
                assert(members_view(out@) =~= src.map_values(
                    |m: (Seq<char>, JsonV)| (m.0, member(m.1, locale@)->0),
                ));
            }
            Ok(Json::Object(out))
        },
        _ => Err(ContentError::NotAnObject),
    }
}

/// Spreading fields of strings, numbers, booleans and null over a locale
/// and narrowing them back to that locale gives the fields back.
pub proof fn lemma_inflate_then_project(fields: JsonV, locale: Seq<char>)
    requires
        fields is Object,
        forall|i: int|
            0 <= i < fields->Object_0.len() ==> is_scalar(#[trigger] fields->Object_0[i].1),
    ensures
        inflate_spec(fields, locale) is Ok,
        project_spec(inflate_spec(fields, locale)->Ok_0, locale) == Ok::<JsonV, ContentError>(
            fields,
        ),
{
    let ms = fields->Object_0;
    let spread = ms.map_values(|m: (Seq<char>, JsonV)| (m.0, localized(locale, m.1)));
    assert forall|i: int| 0 <= i < spread.len() implies (#[trigger] member(
        spread[i].1,
        locale,
    )) == Some(ms[i].1) by {
        let inner = seq![(locale, ms[i].1)];
        assert(key_pos(inner, locale, 0) == 0);
    }
    let back = spread.map_values(|m: (Seq<char>, JsonV)| (m.0, member(m.1, locale)->0));
    assert(back =~= ms);
}

} // verus!
