use vstd::prelude::*;

use crate::error::ContentError;
use crate::json::{
    Json, JsonV, find_key, index, items_view, key_pos, lemma_view_items_vec, lemma_view_members_vec,
    member, members_view, set_member, with_member,
};

verus! {

/// How many entry links, one inside another, resolution follows at most.
/// A link met deeper than this stays as it is, so a cycle of entries that
/// link to each other cannot make resolution run forever.
pub const MAX_LINK_DEPTH: usize = 10;

/// The objects of one kind (`"Entry"` or `"Asset"`) in a response's
/// side-table; none where the side-table has no array of that kind.
pub open spec fn bucket(includes: JsonV, kind: Seq<char>) -> Seq<JsonV> {
    match member(includes, kind) {
        Some(JsonV::Array(s)) => s,
        _ => Seq::empty(),
    }
}

/// The `sys.id` of an object, or null.
pub open spec fn sys_id(v: JsonV) -> JsonV {
    index(index(v, "sys"@), "id"@)
}

/// The first position at or after `i` of an object whose `sys.id` is `id`,
/// or the length of the bucket where there is none.
pub open spec fn id_pos(objects: Seq<JsonV>, id: JsonV, i: nat) -> nat
    decreases objects.len() - i,
{
    if i >= objects.len() {
        objects.len()
    } else if sys_id(objects[i as int]) == id {
        i
    } else {
        id_pos(objects, id, i + 1)
    }
}

/// Whether an object is a rich-text document.
pub open spec fn is_rich_text(v: JsonV) -> bool {
    member(v, "nodeType"@) == Some(JsonV::Str("document"@))
}

/// A document with its reference stubs replaced by what they point at,
/// following at most `depth` entry links one inside another.
///
/// Arrays are resolved element by element; an object is resolved by its
/// `sys.type`; strings, numbers, booleans and null stay as they are.
pub open spec fn resolve_value(v: JsonV, includes: JsonV, depth: nat) -> Result<JsonV, ContentError>
    decreases depth, v, 2nat,
{
    match v {
        JsonV::Array(s) => match resolve_items(s, includes, depth) {
            Ok(r) => Ok(JsonV::Array(r)),
            Err(e) => Err(e),
        },
        JsonV::Object(_) => resolve_object(v, includes, depth),
        _ => Ok(v),
    }
}

/// An object resolved by its `sys.type`: an entry becomes its resolved
/// fields, a link what it points at, and a rich-text document or an object
/// without `sys` stays as it is.
pub open spec fn resolve_object(v: JsonV, includes: JsonV, depth: nat) -> Result<
    JsonV,
    ContentError,
>
    decreases depth, v, 1nat,
{
    match member(v, "sys"@) {
        None => Ok(v),
        Some(sys) => match member(sys, "type"@) {
            None => Err(ContentError::MissingSysType),
            Some(t) => {
                if t == JsonV::Str("Entry"@) {
                    resolve_entry(v, includes, depth)
                } else if t == JsonV::Str("Link"@) {
                    resolve_link(v, includes, depth)
                } else if is_rich_text(v) {
                    Ok(v)
                } else {
                    Err(ContentError::UnsupportedNode)
                }
            },
        },
    }
}

/// An entry replaced by its `fields` object, each field resolved.
pub open spec fn resolve_entry(v: JsonV, includes: JsonV, depth: nat) -> Result<
    JsonV,
    ContentError,
>
    decreases depth, v, 0nat,
{
    match v {
        JsonV::Object(ms) => {
            let p = key_pos(ms, "fields"@, 0);
            if p < ms.len() {
                match ms[p as int].1 {
                    JsonV::Object(fs) => match resolve_fields(fs, includes, depth) {
                        Ok(r) => Ok(JsonV::Object(r)),
                        Err(e) => Err(e),
                    },
                    _ => Err(ContentError::MalformedEntry),
                }
            } else {
                Err(ContentError::MalformedEntry)
            }
        },
        _ => Err(ContentError::MalformedEntry),
    }
}

/// An asset replaced by its `fields` object.
pub open spec fn asset_fields(v: JsonV) -> Result<JsonV, ContentError> {
    match member(v, "fields"@) {
        Some(JsonV::Object(fs)) => Ok(JsonV::Object(fs)),
        _ => Err(ContentError::MalformedAsset),
    }
}

/// A link stub replaced by the first object of its kind in the side-table
/// with the same `sys.id`: an entry resolved in turn, an asset by its fields.
/// A stub that matches nothing, or an entry link met with no depth left,
/// stays as it is.
pub open spec fn resolve_link(v: JsonV, includes: JsonV, depth: nat) -> Result<
    JsonV,
    ContentError,
>
    decreases depth, v, 0nat,
{
    let link_type = index(index(v, "sys"@), "linkType"@);
    let id = sys_id(v);
    if link_type == JsonV::Str("Entry"@) {
        let entries = bucket(includes, "Entry"@);
        let p = id_pos(entries, id, 0);
        if depth == 0 || p >= entries.len() {
            Ok(v)
        } else {
            resolve_entry(entries[p as int], includes, (depth - 1) as nat)
        }
    } else if link_type == JsonV::Str("Asset"@) {
        let assets = bucket(includes, "Asset"@);
        let p = id_pos(assets, id, 0);
        if p >= assets.len() {
            Ok(v)
        } else {
            asset_fields(assets[p as int])
        }
    } else {
        Err(ContentError::UnknownLinkType)
    }
}

/// The elements of an array, each resolved; the first failure otherwise.
pub open spec fn resolve_items(s: Seq<JsonV>, includes: JsonV, depth: nat) -> Result<
    Seq<JsonV>,
    ContentError,
>
    decreases depth, s, 0nat,
{
    if s.len() == 0 {
        Ok(Seq::empty())
    } else {
        match resolve_items(s.subrange(0, s.len() - 1), includes, depth) {
            Ok(r) => match resolve_value(s[s.len() - 1], includes, depth) {
                Ok(x) => Ok(r.push(x)),
                Err(e) => Err(e),
            },
            Err(e) => Err(e),
        }
    }
}

/// The members of an object, each value resolved; the first failure otherwise.
pub open spec fn resolve_fields(s: Seq<(Seq<char>, JsonV)>, includes: JsonV, depth: nat) -> Result<
    Seq<(Seq<char>, JsonV)>,
    ContentError,
>
    decreases depth, s, 0nat,
{
    if s.len() == 0 {
        Ok(Seq::empty())
    } else {
        match resolve_fields(s.subrange(0, s.len() - 1), includes, depth) {
            Ok(r) => match resolve_value(s[s.len() - 1].1, includes, depth) {
                Ok(x) => Ok(r.push((s[s.len() - 1].0, x))),
                Err(e) => Err(e),
            },
            Err(e) => Err(e),
        }
    }
}

/// A result page resolved: its `items`, each resolved against the page's
/// `includes`, where a page without `items` has none.
pub open spec fn resolve_page_spec(page: JsonV) -> Result<Seq<JsonV>, ContentError> {
    match member(page, "items"@) {
        None => Ok(Seq::empty()),
        Some(JsonV::Array(s)) => resolve_items(s, index(page, "includes"@), MAX_LINK_DEPTH as nat),
        Some(_) => Err(ContentError::ItemsNotArray),
    }
}

/// An entry's fields with its `sys` object added under the name `sys`.
pub open spec fn fields_with_sys_spec(entry: JsonV) -> Result<JsonV, ContentError> {
    match (member(entry, "fields"@), member(entry, "sys"@)) {
        (Some(JsonV::Object(fs)), Some(sys)) => Ok(JsonV::Object(with_member(fs, "sys"@, sys))),
        _ => Err(ContentError::MalformedEntry),
    }
}

/// The value of a result that holds a document.
pub open spec fn result_view(r: Result<Json, ContentError>) -> Result<JsonV, ContentError> {
    match r {
        Ok(j) => Ok(j@),
        Err(e) => Err(e),
    }
}

pub proof fn lemma_items_err_extends(
    s: Seq<JsonV>,
    includes: JsonV,
    depth: nat,
    k: int,
    e: ContentError,
)
    requires
        0 <= k <= s.len(),
        resolve_items(s.subrange(0, k), includes, depth) == Err::<Seq<JsonV>, ContentError>(e),
    ensures
        resolve_items(s, includes, depth) == Err::<Seq<JsonV>, ContentError>(e),
    decreases s.len() - k,
{
    if k < s.len() {
        let t = s.subrange(0, k + 1);
        assert(t.subrange(0, t.len() - 1) =~= s.subrange(0, k));
        lemma_items_err_extends(s, includes, depth, k + 1, e);
    } else {
        assert(s.subrange(0, k) =~= s);
    }
}

pub proof fn lemma_fields_err_extends(
    s: Seq<(Seq<char>, JsonV)>,
    includes: JsonV,
    depth: nat,
    k: int,
    e: ContentError,
)
    requires
        0 <= k <= s.len(),
        resolve_fields(s.subrange(0, k), includes, depth) == Err::<
            Seq<(Seq<char>, JsonV)>,
            ContentError,
        >(e),
    ensures
        resolve_fields(s, includes, depth) == Err::<Seq<(Seq<char>, JsonV)>, ContentError>(e),
    decreases s.len() - k,
{
    if k < s.len() {
        let t = s.subrange(0, k + 1);
        assert(t.subrange(0, t.len() - 1) =~= s.subrange(0, k));
        lemma_fields_err_extends(s, includes, depth, k + 1, e);
    } else {
        assert(s.subrange(0, k) =~= s);
    }
}

/// Resolves every reference stub in `node` against the side-table
/// `includes`, following entry links up to [`MAX_LINK_DEPTH`] deep.
pub fn resolve(node: &Json, includes: &Json) -> (r: Result<Json, ContentError>)
    ensures
        result_view(r) == resolve_value(node@, includes@, MAX_LINK_DEPTH as nat),
{
    resolve_node(node, includes, MAX_LINK_DEPTH)
}

/// The items of a result page, each resolved against the page's side-table.
pub fn resolve_page(page: &Json) -> (r: Result<Vec<Json>, ContentError>)
    ensures
        match r {
            Ok(items) => resolve_page_spec(page@) == Ok::<Seq<JsonV>, ContentError>(
                items_view(items@),
            ),
            Err(e) => resolve_page_spec(page@) == Err::<Seq<JsonV>, ContentError>(e),
        },
{
    let items_key = "items".to_owned();
    match page.get(&items_key) {
        None => {
            let out: Vec<Json> = Vec::new();
            proof {
                lemma_view_items_vec(out@);
                assert(items_view(out@) =~= Seq::<JsonV>::empty());
            }
            Ok(out)
        },
        Some(Json::Array(items)) => {
            let includes = member_or_null(page, "includes");
            resolve_item_list(items, &includes, MAX_LINK_DEPTH)
        },
        Some(_) => Err(ContentError::ItemsNotArray),
    }
}

/// An entry's fields with its `sys` object added under the name `sys`, the
/// shape that a typed value with a `sys` field is read from.
pub fn fields_with_sys(entry: &Json) -> (r: Result<Json, ContentError>)
    ensures
        result_view(r) == fields_with_sys_spec(entry@),
{
    let fields_key = "fields".to_owned();
    let sys_key = "sys".to_owned();
    match (entry.get(&fields_key), entry.get(&sys_key)) {
        (Some(f), Some(sys)) => {
            let mut out = f.deep_copy();
            let sys_copy = sys.deep_copy();
            match &mut out {
                Json::Object(ms) => {
                    proof {
                        Json::lemma_object_view(*ms);
                    }
                    set_member(ms, sys_key, sys_copy);
                    proof {
                        Json::lemma_object_view(*ms);
                    }
                },
                _ => {
                    return Err(ContentError::MalformedEntry);
                },
            }
            Ok(out)
        },
        _ => Err(ContentError::MalformedEntry),
    }
}

/// The value of member `key`, or null where there is none.
fn member_or_null(v: &Json, key: &str) -> (r: Json)
    ensures
        r@ == index(v@, key@),
{
    let k = key.to_owned();
    match v.get(&k) {
        Some(x) => x.deep_copy(),
        None => Json::Null,
    }
}

/// The objects of one kind in a side-table.
fn bucket_of<'a>(includes: &'a Json, kind: &str) -> (r: Option<&'a Vec<Json>>)
    ensures
        match r {
            Some(b) => bucket(includes@, kind@) == items_view(b@) && items_view(b@).len()
                == b.len() && forall|j: int|
                0 <= j < b.len() ==> #[trigger] items_view(b@)[j] == b@[j]@,
            None => bucket(includes@, kind@) == Seq::<JsonV>::empty(),
        },
{
    let k = kind.to_owned();
    match includes.get(&k) {
        Some(Json::Array(b)) => {
            proof {
                Json::lemma_array_view(*b);
            }
            Some(b)
        },
        _ => None,
    }
}

/// The position of the first object whose `sys.id` is `id`, or the number
/// of objects.
fn find_by_id(objects: &Vec<Json>, id: &Json) -> (p: usize)
    ensures
        p as nat == id_pos(items_view(objects@), id@, 0),
        p <= objects.len(),
{
    let ghost s = items_view(objects@);
    proof {
        Json::lemma_array_view(*objects);
    }
    let mut i: usize = 0;
    while i < objects.len()
        invariant
            i <= objects.len(),
            s == items_view(objects@),
            s.len() == objects.len(),
            forall|j: int| 0 <= j < objects.len() ==> #[trigger] s[j] == objects@[j]@,
            id_pos(s, id@, 0) == id_pos(s, id@, i as nat),
        decreases objects.len() - i,
    {
        let sys = member_or_null(&objects[i], "sys");
        let this_id = member_or_null(&sys, "id");
        if this_id.same_as(id) {
            return i;
        }
        i = i + 1;
    }
    i
}

/// An asset replaced by its fields.
fn asset_fields_of(asset: &Json) -> (r: Result<Json, ContentError>)
    ensures
        result_view(r) == asset_fields(asset@),
{
    let k = "fields".to_owned();
    match asset.get(&k) {
        Some(f) => match f {
            Json::Object(_) => Ok(f.deep_copy()),
            _ => Err(ContentError::MalformedAsset),
        },
        None => Err(ContentError::MalformedAsset),
    }
}

/// Resolves every reference stub in `node` against the side-table
/// `includes`, following at most `depth` entry links one inside another.
pub fn resolve_node(node: &Json, includes: &Json, depth: usize) -> (r: Result<Json, ContentError>)
    ensures
        result_view(r) == resolve_value(node@, includes@, depth as nat),
    decreases depth, node, 2nat,
{
    match node {
        Json::Array(items) => {
            proof {
                Json::lemma_array_view(*items);
                assert(decreases_to!(*node => node->Array_0));
            }
            match resolve_item_list(items, includes, depth) {
                Ok(out) => {
                    proof {
                        Json::lemma_array_view(out);
                    }
                    Ok(Json::Array(out))
                },
                Err(e) => Err(e),
            }
        },
        Json::Object(_) => resolve_object_node(node, includes, depth),
        _ => Ok(node.deep_copy()),
    }
}

/// Resolves an object by its `sys.type`.
fn resolve_object_node(node: &Json, includes: &Json, depth: usize) -> (r: Result<
    Json,
    ContentError,
>)
    requires
        node is Object,
    ensures
        result_view(r) == resolve_object(node@, includes@, depth as nat),
    decreases depth, node, 1nat,
{
    let sys_key = "sys".to_owned();
    match node.get(&sys_key) {
        None => Ok(node.deep_copy()),
        Some(sys) => {
            let type_key = "type".to_owned();
            match sys.get(&type_key) {
                None => Err(ContentError::MissingSysType),
                Some(t) => {
                    if t.is_text("Entry") {
                        resolve_entry_node(node, includes, depth)
                    } else if t.is_text("Link") {
                        resolve_link_node(node, includes, depth)
                    } else {
                        let node_type_key = "nodeType".to_owned();
                        let rich = match node.get(&node_type_key) {
                            Some(x) => x.is_text("document"),
                            None => false,
                        };
                        if rich {
                            Ok(node.deep_copy())
                        } else {
                            Err(ContentError::UnsupportedNode)
                        }
                    }
                },
            }
        },
    }
}

/// Replaces an entry by its fields, each resolved.
fn resolve_entry_node(node: &Json, includes: &Json, depth: usize) -> (r: Result<
    Json,
    ContentError,
>)
    ensures
        result_view(r) == resolve_entry(node@, includes@, depth as nat),
    decreases depth, node, 0nat,
{
    match node {
        Json::Object(ms) => {
            let key = "fields".to_owned();
            let p = find_key(ms, &key);
            proof {
                Json::lemma_object_view(*ms);
            }
            if p < ms.len() {
                match &ms[p].1 {
                    Json::Object(fs) => {
                        proof {
                            assert(decreases_to!(*node => node->Object_0));
                            assert(decreases_to!(node->Object_0 => ms@));
                            assert(decreases_to!(ms@ => ms@[p as int]));
                            assert(decreases_to!(ms@[p as int] => ms@[p as int].1));
                            assert(decreases_to!(ms@[p as int].1 => ms@[p as int].1->Object_0));
                            Json::lemma_object_view(*fs);
                        }
                        match resolve_member_list(fs, includes, depth) {
                            Ok(out) => {
                                proof {
                                    Json::lemma_object_view(out);
                                }
                                Ok(Json::Object(out))
                            },
                            Err(e) => Err(e),
                        }
                    },
                    _ => Err(ContentError::MalformedEntry),
                }
            } else {
                Err(ContentError::MalformedEntry)
            }
        },
        _ => Err(ContentError::MalformedEntry),
    }
}

/// Replaces a link stub by what it points at.
fn resolve_link_node(node: &Json, includes: &Json, depth: usize) -> (r: Result<
    Json,
    ContentError,
>)
    ensures
        result_view(r) == resolve_link(node@, includes@, depth as nat),
    decreases depth, node, 0nat,
{
    let sys = member_or_null(node, "sys");
    let link_type = member_or_null(&sys, "linkType");
    let id = member_or_null(&sys, "id");
    if link_type.is_text("Entry") {
        if depth == 0 {
            return Ok(node.deep_copy());
        }
        match bucket_of(includes, "Entry") {
            None => Ok(node.deep_copy()),
            Some(entries) => {
                let p = find_by_id(entries, &id);
                if p < entries.len() {
                    resolve_entry_node(&entries[p], includes, depth - 1)
                } else {
                    Ok(node.deep_copy())
                }
            },
        }
    } else if link_type.is_text("Asset") {
        match bucket_of(includes, "Asset") {
            None => Ok(node.deep_copy()),
            Some(assets) => {
                let p = find_by_id(assets, &id);
                if p < assets.len() {
                    asset_fields_of(&assets[p])
                } else {
                    Ok(node.deep_copy())
                }
            },
        }
    } else {
        Err(ContentError::UnknownLinkType)
    }
}

/// Resolves each element of an array, in order.
fn resolve_item_list(items: &Vec<Json>, includes: &Json, depth: usize) -> (r: Result<
    Vec<Json>,
    ContentError,
>)
    ensures
        match r {
            Ok(out) => resolve_items(items_view(items@), includes@, depth as nat) == Ok::<
                Seq<JsonV>,
                ContentError,
            >(items_view(out@)),
            Err(e) => resolve_items(items_view(items@), includes@, depth as nat) == Err::<
                Seq<JsonV>,
                ContentError,
            >(e),
        },
    decreases depth, items, 0nat,
{
    let ghost s = items_view(items@);
    proof {
        Json::lemma_array_view(*items);
        assert(s.subrange(0, 0) =~= Seq::<JsonV>::empty());
    }
    let mut out: Vec<Json> = Vec::new();
    let mut i: usize = 0;
    while i < items.len()
        invariant
            i <= items.len(),
            s == items_view(items@),
            s.len() == items.len(),
            forall|j: int| 0 <= j < items.len() ==> #[trigger] s[j] == items@[j]@,
            out.len() == i,
            resolve_items(s.subrange(0, i as int), includes@, depth as nat) == Ok::<
                Seq<JsonV>,
                ContentError,
            >(items_view(out@)),
        decreases items.len() - i,
    {
        proof {
            assert(decreases_to!(*items => items@));
            assert(decreases_to!(items@ => items@[i as int]));
        }
        let r = resolve_node(&items[i], includes, depth);
        let ghost t = s.subrange(0, i + 1);
        proof {
            assert(t.subrange(0, t.len() - 1) =~= s.subrange(0, i as int));
            assert(t[t.len() - 1] == s[i as int]);
        }
        match r {
            Ok(x) => {
                let ghost before = out@;
                out.push(x);
                proof {
                    Json::lemma_array_view(out);
                    lemma_view_items_vec(before);
                    assert(items_view(out@) =~= items_view(before).push(x@));
                }
            },
            Err(e) => {
                proof {
                    lemma_items_err_extends(s, includes@, depth as nat, i + 1, e);
                }
                return Err(e);
            },
        }
        i = i + 1;
    }
    proof {
        assert(s.subrange(0, i as int) =~= s);
    }
    Ok(out)
}

/// Resolves the value of each member of an object, in order.
fn resolve_member_list(members: &Vec<(String, Json)>, includes: &Json, depth: usize) -> (r: Result<
    Vec<(String, Json)>,
    ContentError,
>)
    ensures
        match r {
            Ok(out) => resolve_fields(members_view(members@), includes@, depth as nat) == Ok::<
                Seq<(Seq<char>, JsonV)>,
                ContentError,
            >(members_view(out@)),
            Err(e) => resolve_fields(members_view(members@), includes@, depth as nat) == Err::<
                Seq<(Seq<char>, JsonV)>,
                ContentError,
            >(e),
        },
    decreases depth, members, 0nat,
{
    let ghost s = members_view(members@);
    proof {
        Json::lemma_object_view(*members);
        assert(s.subrange(0, 0) =~= Seq::<(Seq<char>, JsonV)>::empty());
    }
    let mut out: Vec<(String, Json)> = Vec::new();
    let mut i: usize = 0;
    while i < members.len()
        invariant
            i <= members.len(),
            s == members_view(members@),
            s.len() == members.len(),
            forall|j: int|
                0 <= j < members.len() ==> #[trigger] s[j] == (members@[j].0@, members@[j].1@),
            out.len() == i,
            resolve_fields(s.subrange(0, i as int), includes@, depth as nat) == Ok::<
                Seq<(Seq<char>, JsonV)>,
                ContentError,
            >(members_view(out@)),
        decreases members.len() - i,
    {
        proof {
            assert(decreases_to!(*members => members@));
            assert(decreases_to!(members@ => members@[i as int]));
            assert(decreases_to!(members@[i as int] => members@[i as int].1));
        }
        let r = resolve_node(&members[i].1, includes, depth);
        let ghost t = s.subrange(0, i + 1);
        proof {
            assert(t.subrange(0, t.len() - 1) =~= s.subrange(0, i as int));
            assert(t[t.len() - 1] == s[i as int]);
        }
        match r {
            Ok(x) => {
                let ghost before = out@;
                let k = members[i].0.clone();
                out.push((k, x));
                proof {
                    Json::lemma_object_view(out);
                    lemma_view_members_vec(before);
                    assert(members_view(out@) =~= members_view(before).push((k@, x@)));
                }
            },
            Err(e) => {
                proof {
                    lemma_fields_err_extends(s, includes@, depth as nat, i + 1, e);
                }
                return Err(e);
            },
        }
        i = i + 1;
    }
    proof {
        assert(s.subrange(0, i as int) =~= s);
    }
    Ok(out)
}

/// Whether a value holds nothing that resolution rewrites: no object with a
/// `sys` member, outside of objects without one (which are left whole).
pub open spec fn holds_no_links(v: JsonV) -> bool
    decreases v,
{
    match v {
        JsonV::Array(s) => forall|i: int| 0 <= i < s.len() ==> holds_no_links(#[trigger] s[i]),
        JsonV::Object(_) => member(v, "sys"@) is None,
        _ => true,
    }
}

/// Whether `v` is an entry: an object whose `sys.type` is `"Entry"`.
pub open spec fn is_entry(v: JsonV) -> bool {
    index(index(v, "sys"@), "type"@) == JsonV::Str("Entry"@)
}

/// Whether `v` is a link stub of the given kind.
pub open spec fn is_link_to(v: JsonV, kind: Seq<char>) -> bool {
    &&& index(index(v, "sys"@), "type"@) == JsonV::Str("Link"@)
    &&& index(index(v, "sys"@), "linkType"@) == JsonV::Str(kind)
}

proof fn lemma_no_links_value(v: JsonV, includes: JsonV, depth: nat)
    requires
        holds_no_links(v),
    ensures
        resolve_value(v, includes, depth) == Ok::<JsonV, ContentError>(v),
    decreases v, 1nat,
{
    if let JsonV::Array(s) = v {
        lemma_no_links_items(s, includes, depth);
    }
}

proof fn lemma_no_links_items(s: Seq<JsonV>, includes: JsonV, depth: nat)
    requires
        forall|i: int| 0 <= i < s.len() ==> holds_no_links(#[trigger] s[i]),
    ensures
        resolve_items(s, includes, depth) == Ok::<Seq<JsonV>, ContentError>(s),
    decreases s, 0nat,
{
    if s.len() > 0 {
        let pre = s.subrange(0, s.len() - 1);
        assert forall|i: int| 0 <= i < pre.len() implies holds_no_links(#[trigger] pre[i]) by {
            assert(pre[i] == s[i]);
        }
        lemma_no_links_items(pre, includes, depth);
        lemma_no_links_value(s[s.len() - 1], includes, depth);
        assert(pre.push(s[s.len() - 1]) =~= s);
    } else {
        assert(s =~= Seq::<JsonV>::empty());
    }
}

proof fn lemma_no_links_fields(s: Seq<(Seq<char>, JsonV)>, includes: JsonV, depth: nat)
    requires
        forall|i: int| 0 <= i < s.len() ==> holds_no_links(#[trigger] s[i].1),
    ensures
        resolve_fields(s, includes, depth) == Ok::<Seq<(Seq<char>, JsonV)>, ContentError>(s),
    decreases s.len(),
{
    if s.len() > 0 {
        let pre = s.subrange(0, s.len() - 1);
        assert forall|i: int| 0 <= i < pre.len() implies holds_no_links(#[trigger] pre[i].1) by {
            assert(pre[i] == s[i]);
        }
        lemma_no_links_fields(pre, includes, depth);
        lemma_no_links_value(s[s.len() - 1].1, includes, depth);
        assert(pre.push((s[s.len() - 1].0, s[s.len() - 1].1)) =~= s);
    } else {
        assert(s =~= Seq::<(Seq<char>, JsonV)>::empty());
    }
}

proof fn lemma_link_dispatch(stub: JsonV, includes: JsonV, depth: nat)
    requires
        index(index(stub, "sys"@), "type"@) == JsonV::Str("Link"@),
    ensures
        resolve_value(stub, includes, depth) == resolve_link(stub, includes, depth),
{
    reveal_strlit("Entry");
    reveal_strlit("Link");
    let sys = index(stub, "sys"@);
    assert(member(stub, "sys"@) == Some(sys));
    assert(member(sys, "type"@) == Some(JsonV::Str("Link"@)));
    assert("Link"@ != "Entry"@) by {
        assert("Link"@.len() != "Entry"@.len());
    }
    assert(resolve_object(stub, includes, depth) == resolve_link(stub, includes, depth));
}

proof fn lemma_id_pos_first(objects: Seq<JsonV>, id: JsonV, i: nat, j: nat)
    requires
        i <= j < objects.len(),
        sys_id(objects[j as int]) == id,
        forall|k: int| i <= k < j ==> sys_id(#[trigger] objects[k]) != id,
    ensures
        id_pos(objects, id, i) == j,
    decreases j - i,
{
    if i < j {
        lemma_id_pos_first(objects, id, i + 1, j);
    }
}

proof fn lemma_id_pos_none(objects: Seq<JsonV>, id: JsonV, i: nat)
    requires
        i <= objects.len(),
        forall|k: int| i <= k < objects.len() ==> sys_id(#[trigger] objects[k]) != id,
    ensures
        id_pos(objects, id, i) == objects.len(),
    decreases objects.len() - i,
{
    if i < objects.len() {
        lemma_id_pos_none(objects, id, i + 1);
    }
}

/// An entry whose field values hold no links resolves to its own `fields`
/// object, unchanged: resolution only strips the `sys` envelope.
pub proof fn lemma_entry_without_links(entry: JsonV, includes: JsonV, depth: nat)
    requires
        is_entry(entry),
        index(entry, "fields"@) is Object,
        forall|i: int|
            0 <= i < index(entry, "fields"@)->Object_0.len() ==> holds_no_links(
                #[trigger] index(entry, "fields"@)->Object_0[i].1,
            ),
    ensures
        resolve_value(entry, includes, depth) == Ok::<JsonV, ContentError>(index(entry, "fields"@)),
{
    let sys = index(entry, "sys"@);
    assert(member(entry, "sys"@) == Some(sys));
    assert(member(sys, "type"@) == Some(JsonV::Str("Entry"@)));
    assert(resolve_object(entry, includes, depth) == resolve_entry(entry, includes, depth));
    let fs = index(entry, "fields"@)->Object_0;
    lemma_no_links_fields(fs, includes, depth);
    assert(member(entry, "fields"@) == Some(JsonV::Object(fs)));
}

/// An entry link resolves to the first entry in the side-table with the
/// link's id, itself resolved (its fields, with their own links resolved);
/// later entries with the same id are never looked at.
pub proof fn lemma_entry_link_takes_first_match(
    stub: JsonV,
    includes: JsonV,
    depth: nat,
    j: int,
)
    requires
        is_link_to(stub, "Entry"@),
        depth > 0,
        0 <= j < bucket(includes, "Entry"@).len(),
        sys_id(bucket(includes, "Entry"@)[j]) == sys_id(stub),
        forall|k: int| 0 <= k < j ==> sys_id(#[trigger] bucket(includes, "Entry"@)[k]) != sys_id(stub),
    ensures
        resolve_value(stub, includes, depth) == resolve_entry(
            bucket(includes, "Entry"@)[j],
            includes,
            (depth - 1) as nat,
        ),
{
    lemma_link_dispatch(stub, includes, depth);
    lemma_id_pos_first(bucket(includes, "Entry"@), sys_id(stub), 0, j as nat);
}

/// An asset link resolves to the `fields` of the first asset in the
/// side-table with the link's id.
pub proof fn lemma_asset_link_takes_first_match(stub: JsonV, includes: JsonV, depth: nat, j: int)
    requires
        is_link_to(stub, "Asset"@),
        0 <= j < bucket(includes, "Asset"@).len(),
        sys_id(bucket(includes, "Asset"@)[j]) == sys_id(stub),
        forall|k: int| 0 <= k < j ==> sys_id(#[trigger] bucket(includes, "Asset"@)[k]) != sys_id(stub),
    ensures
        resolve_value(stub, includes, depth) == asset_fields(bucket(includes, "Asset"@)[j]),
{
    reveal_strlit("Entry");
    reveal_strlit("Asset");
    assert("Asset"@ != "Entry"@) by {
        assert("Asset"@[0] != "Entry"@[0]);
    }
    lemma_link_dispatch(stub, includes, depth);
    lemma_id_pos_first(bucket(includes, "Asset"@), sys_id(stub), 0, j as nat);
}

/// A link stub whose id matches no object of its kind in the side-table is
/// left exactly as it was.
pub proof fn lemma_unmatched_link_is_kept(
    stub: JsonV,
    includes: JsonV,
    depth: nat,
    kind: Seq<char>,
)
    requires
        kind == "Entry"@ || kind == "Asset"@,
        is_link_to(stub, kind),
        forall|k: int|
            0 <= k < bucket(includes, kind).len() ==> sys_id(#[trigger] bucket(includes, kind)[k])
                != sys_id(stub),
    ensures
        resolve_value(stub, includes, depth) == Ok::<JsonV, ContentError>(stub),
{
    reveal_strlit("Entry");
    reveal_strlit("Asset");
    assert("Asset"@ != "Entry"@) by {
        assert("Asset"@[0] != "Entry"@[0]);
    }
    lemma_link_dispatch(stub, includes, depth);
    lemma_id_pos_none(bucket(includes, kind), sys_id(stub), 0);
}

} // verus!
