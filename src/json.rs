use vstd::prelude::*;

verus! {

/// A JSON document as the library handles it. Numbers keep their textual
/// form, and an object keeps its members in order.
#[derive(Debug, PartialEq)]
pub enum Json {
    Null,
    Bool(bool),
    Number(String),
    Str(String),
    Array(Vec<Json>),
    Object(Vec<(String, Json)>),
}

/// The mathematical value of a [`Json`] document.
pub enum JsonV {
    Null,
    Bool(bool),
    Number(Seq<char>),
    Str(Seq<char>),
    Array(Seq<JsonV>),
    Object(Seq<(Seq<char>, JsonV)>),
}

impl View for Json {
    type V = JsonV;

    open spec fn view(&self) -> JsonV
        decreases self, 0nat,
    {
        match self {
            Json::Null => JsonV::Null,
            Json::Bool(b) => JsonV::Bool(*b),
            Json::Number(n) => JsonV::Number(n@),
            Json::Str(s) => JsonV::Str(s@),
            Json::Array(items) => JsonV::Array(view_items(items@, items@.len())),
            Json::Object(members) => JsonV::Object(view_members(members@, members@.len())),
        }
    }
}

/// The values of a sequence of documents.
pub open spec fn items_view(items: Seq<Json>) -> Seq<JsonV> {
    view_items(items, items.len())
}

/// The values of the members of an object.
pub open spec fn members_view(members: Seq<(String, Json)>) -> Seq<(Seq<char>, JsonV)> {
    view_members(members, members.len())
}

/// The first position at or after `i` whose member is named `key`, or the
/// number of members where there is none.
pub open spec fn key_pos<V>(members: Seq<(Seq<char>, V)>, key: Seq<char>, i: nat) -> nat
    decreases members.len() - i,
{
    if i >= members.len() {
        members.len()
    } else if members[i as int].0 == key {
        i
    } else {
        key_pos(members, key, i + 1)
    }
}

/// The value of the first member named `key`, where `v` is an object that has one.
pub open spec fn member(v: JsonV, key: Seq<char>) -> Option<JsonV> {
    match v {
        JsonV::Object(members) => {
            let p = key_pos(members, key, 0);
            if p < members.len() {
                Some(members[p as int].1)
            } else {
                None
            }
        },
        _ => None,
    }
}

/// The value of member `key`, or null where there is none.
pub open spec fn index(v: JsonV, key: Seq<char>) -> JsonV {
    match member(v, key) {
        Some(x) => x,
        None => JsonV::Null,
    }
}

/// The members with `key` set to `v`: the first member of that name has its
/// value replaced, and where there is none the member is added at the end.
pub open spec fn with_member(members: Seq<(Seq<char>, JsonV)>, key: Seq<char>, v: JsonV) -> Seq<
    (Seq<char>, JsonV),
> {
    let p = key_pos(members, key, 0);
    if p < members.len() {
        members.update(p as int, (key, v))
    } else {
        members.push((key, v))
    }
}

/// Whether a value is a string, number, boolean or null.
pub open spec fn is_scalar(v: JsonV) -> bool {
    !(v is Array) && !(v is Object)
}

/// The values of the first `n` documents of `items`.
pub open spec fn view_items(items: Seq<Json>, n: nat) -> Seq<JsonV>
    decreases items, n,
{
    if n == 0 || n > items.len() {
        Seq::empty()
    } else {
        view_items(items, (n - 1) as nat).push(items[n - 1]@)
    }
}

/// The values of the first `n` members of an object.
pub open spec fn view_members(members: Seq<(String, Json)>, n: nat) -> Seq<(Seq<char>, JsonV)>
    decreases members, n,
{
    if n == 0 || n > members.len() {
        Seq::empty()
    } else {
        view_members(members, (n - 1) as nat).push((members[n - 1].0@, members[n - 1].1@))
    }
}

pub proof fn lemma_view_items(items: Seq<Json>, n: nat)
    requires
        n <= items.len(),
    ensures
        view_items(items, n).len() == n,
        forall|j: int| 0 <= j < n ==> #[trigger] view_items(items, n)[j] == items[j]@,
    decreases n,
{
    if n > 0 {
        lemma_view_items(items, (n - 1) as nat);
        assert(view_items(items, n) == view_items(items, (n - 1) as nat).push(items[n - 1]@));
    } else {
        assert(view_items(items, n) == Seq::<JsonV>::empty());
    }
}

pub proof fn lemma_view_members(members: Seq<(String, Json)>, n: nat)
    requires
        n <= members.len(),
    ensures
        view_members(members, n).len() == n,
        forall|j: int|
            0 <= j < n ==> #[trigger] view_members(members, n)[j] == (
                members[j].0@,
                members[j].1@,
            ),
    decreases n,
{
    if n > 0 {
        lemma_view_members(members, (n - 1) as nat);
        assert(view_members(members, n) == view_members(members, (n - 1) as nat).push(
            (members[n - 1].0@, members[n - 1].1@),
        ));
    } else {
        assert(view_members(members, n) == Seq::<(Seq<char>, JsonV)>::empty());
    }
}

/// `key_pos` finds the first member named `key` from `i` on.
pub proof fn lemma_key_pos<V>(members: Seq<(Seq<char>, V)>, key: Seq<char>, i: nat)
    requires
        i <= members.len(),
    ensures
        i <= key_pos(members, key, i) <= members.len(),
        key_pos(members, key, i) < members.len() ==> members[key_pos(members, key, i) as int].0
            == key,
        forall|j: int| i <= j < key_pos(members, key, i) ==> #[trigger] members[j].0 != key,
    decreases members.len() - i,
{
    if i < members.len() && members[i as int].0 != key {
        lemma_key_pos(members, key, i + 1);
    }
}

/// The position of the first member named `key`, or the number of members.
pub fn find_key(members: &Vec<(String, Json)>, key: &String) -> (p: usize)
    ensures
        p as nat == key_pos(members_view(members@), key@, 0),
        p <= members.len(),
{
    let ghost mv = members_view(members@);
    proof {
        lemma_view_members(members@, members@.len());
    }
    let mut i: usize = 0;
    while i < members.len()
        invariant
            i <= members.len(),
            mv == members_view(members@),
            mv.len() == members.len(),
            forall|j: int| 0 <= j < members.len() ==> mv[j] == (members@[j].0@, members@[j].1@),
            key_pos(mv, key@, 0) == key_pos(mv, key@, i as nat),
        decreases members.len() - i,
    {
        if members[i].0 == *key {
            return i;
        }
        i = i + 1;
    }
    i
}

pub proof fn lemma_view_items_vec(items: Seq<Json>)
    ensures
        items_view(items).len() == items.len(),
        forall|j: int| 0 <= j < items.len() ==> #[trigger] items_view(items)[j] == items[j]@,
{
    lemma_view_items(items, items.len());
}

pub proof fn lemma_view_members_vec(members: Seq<(String, Json)>)
    ensures
        members_view(members).len() == members.len(),
        forall|j: int|
            0 <= j < members.len() ==> #[trigger] members_view(members)[j] == (
                members[j].0@,
                members[j].1@,
            ),
{
    lemma_view_members(members, members.len());
}

/// Sets member `key` to `v`: replaces the value of the first member of that
/// name, or adds the member at the end where there is none.
pub fn set_member(members: &mut Vec<(String, Json)>, key: String, v: Json)
    ensures
        members_view(final(members)@) == with_member(members_view(old(members)@), key@, v@),
{
    let p = find_key(members, &key);
    let ghost before = members_view(old(members)@);
    proof {
        lemma_view_members(old(members)@, old(members)@.len());
    }
    let ghost kv = (key@, v@);
    if p < members.len() {
        members.set(p, (key, v));
        proof {
            lemma_view_members(members@, members@.len());
            assert(members_view(members@) =~= before.update(p as int, kv));
        }
    } else {
        members.push((key, v));
        proof {
            lemma_view_members(members@, members@.len());
            assert(members_view(members@) =~= before.push(kv));
        }
    }
}

impl Json {
    /// Builds an array from its elements.
    pub proof fn lemma_array_view(items: Vec<Json>)
        ensures
            Json::Array(items)@ == JsonV::Array(items_view(items@)),
            items_view(items@).len() == items.len(),
            forall|j: int| 0 <= j < items.len() ==> #[trigger] items_view(items@)[j] == items@[j]@,
    {
        lemma_view_items(items@, items@.len());
    }

    /// Builds an object from its members.
    pub proof fn lemma_object_view(members: Vec<(String, Json)>)
        ensures
            Json::Object(members)@ == JsonV::Object(members_view(members@)),
            members_view(members@).len() == members.len(),
            forall|j: int|
                0 <= j < members.len() ==> #[trigger] members_view(members@)[j] == (
                    members@[j].0@,
                    members@[j].1@,
                ),
    {
        lemma_view_members(members@, members@.len());
    }

    /// The value of the first member named `key`, where this is an object that has one.
    pub fn get(&self, key: &String) -> (r: Option<&Json>)
        ensures
            match r {
                Some(x) => member(self@, key@) == Some(x@),
                None => member(self@, key@) is None,
            },
    {
        match self {
            Json::Object(members) => {
                let p = find_key(members, key);
                proof {
                    lemma_view_members(members@, members@.len());
                }
                if p < members.len() {
                    Some(&members[p].1)
                } else {
                    None
                }
            },
            _ => None,
        }
    }

    /// Whether this is the string `s`.
    pub fn is_text(&self, s: &str) -> (r: bool)
        ensures
            r == (self@ == JsonV::Str(s@)),
    {
        match self {
            Json::Str(x) => {
                let t = s.to_owned();
                *x == t
            },
            _ => false,
        }
    }

    /// Whether two documents have the same value.
    pub fn same_as(&self, other: &Json) -> (r: bool)
        ensures
            r == (self@ == other@),
        decreases self,
    {
        match (self, other) {
            (Json::Null, Json::Null) => true,
            (Json::Bool(a), Json::Bool(b)) => *a == *b,
            (Json::Number(a), Json::Number(b)) => *a == *b,
            (Json::Str(a), Json::Str(b)) => *a == *b,
            (Json::Array(a), Json::Array(b)) => {
                proof {
                    lemma_view_items(a@, a@.len());
                    lemma_view_items(b@, b@.len());
                }
                if a.len() != b.len() {
                    assert(items_view(a@).len() != items_view(b@).len());
                    return false;
                }
                let mut i: usize = 0;
                while i < a.len()
                    invariant
                        *self == Json::Array(*a),
                        *other == Json::Array(*b),
                        i <= a.len(),
                        a.len() == b.len(),
                        items_view(a@).len() == a.len(),
                        items_view(b@).len() == b.len(),
                        forall|j: int| 0 <= j < a.len() ==> #[trigger] items_view(a@)[j] == a@[j]@,
                        forall|j: int| 0 <= j < b.len() ==> #[trigger] items_view(b@)[j] == b@[j]@,
                        forall|j: int| 0 <= j < i ==> a@[j]@ == b@[j]@,
                    decreases a.len() - i,
                {
                    proof {
                        assert(decreases_to!(*self => self->Array_0));
                        assert(decreases_to!(self->Array_0 => a@));
                        assert(decreases_to!(a@ => a@[i as int]));
                    }
                    if !a[i].same_as(&b[i]) {
                        assert(items_view(a@)[i as int] != items_view(b@)[i as int]);
                        return false;
                    }
                    i = i + 1;
                }
                assert(items_view(a@) =~= items_view(b@));
                true
            },
            (Json::Object(a), Json::Object(b)) => {
                proof {
                    lemma_view_members(a@, a@.len());
                    lemma_view_members(b@, b@.len());
                }
                if a.len() != b.len() {
                    assert(members_view(a@).len() != members_view(b@).len());
                    return false;
                }
                let mut i: usize = 0;
                while i < a.len()
                    invariant
                        *self == Json::Object(*a),
                        *other == Json::Object(*b),
                        i <= a.len(),
                        a.len() == b.len(),
                        members_view(a@).len() == a.len(),
                        members_view(b@).len() == b.len(),
                        forall|j: int|
                            0 <= j < a.len() ==> #[trigger] members_view(a@)[j] == (
                                a@[j].0@,
                                a@[j].1@,
                            ),
                        forall|j: int|
                            0 <= j < b.len() ==> #[trigger] members_view(b@)[j] == (
                                b@[j].0@,
                                b@[j].1@,
                            ),
                        forall|j: int|
                            0 <= j < i ==> a@[j].0@ == b@[j].0@ && a@[j].1@ == b@[j].1@,
                    decreases a.len() - i,
                {
                    proof {
                        assert(decreases_to!(*self => self->Object_0));
                        assert(decreases_to!(self->Object_0 => a@));
                        assert(decreases_to!(a@ => a@[i as int]));
                        assert(decreases_to!(a@[i as int] => a@[i as int].1));
                    }
                    if a[i].0 != b[i].0 || !a[i].1.same_as(&b[i].1) {
                        assert(members_view(a@)[i as int] != members_view(b@)[i as int]);
                        return false;
                    }
                    i = i + 1;
                }
                assert(members_view(a@) =~= members_view(b@));
                true
            },
            _ => false,
        }
    }

    /// A copy of the document with the same value.
    pub fn deep_copy(&self) -> (r: Json)
        ensures
            r@ == self@,
        decreases self,
    {
        match self {
            Json::Null => Json::Null,
            Json::Bool(b) => Json::Bool(*b),
            Json::Number(n) => Json::Number(n.clone()),
            Json::Str(s) => Json::Str(s.clone()),
            Json::Array(items) => {
                let mut out: Vec<Json> = Vec::new();
                let mut i: usize = 0;
                while i < items.len()
                    invariant
                        *self == Json::Array(*items),
                        i <= items.len(),
                        out.len() == i,
                        forall|j: int| 0 <= j < i ==> out@[j]@ == items@[j]@,
                    decreases items.len() - i,
                {
                    proof {
                        assert(decreases_to!(*self => self->Array_0));
                        assert(decreases_to!(self->Array_0 => items@));
                        assert(decreases_to!(items@ => items@[i as int]));
                    }
                    let c = items[i].deep_copy();
                    out.push(c);
                    i = i + 1;
                }
                proof {
                    lemma_view_items(out@, out@.len());
                    lemma_view_items(items@, items@.len());
                    assert(view_items(out@, out@.len()) =~= view_items(items@, items@.len()));
                }
                Json::Array(out)
            },
            Json::Object(members) => {
                let mut out: Vec<(String, Json)> = Vec::new();
                let mut i: usize = 0;
                while i < members.len()
                    invariant
                        *self == Json::Object(*members),
                        i <= members.len(),
                        out.len() == i,
                        forall|j: int|
                            0 <= j < i ==> out@[j].0@ == members@[j].0@ && out@[j].1@
                                == members@[j].1@,
                    decreases members.len() - i,
                {
                    let k = members[i].0.clone();
                    proof {
                        assert(decreases_to!(*self => self->Object_0));
                        assert(decreases_to!(self->Object_0 => members@));
                        assert(decreases_to!(members@ => members@[i as int]));
                        assert(decreases_to!(members@[i as int] => members@[i as int].1));
                    }
                    let v = members[i].1.deep_copy();
                    out.push((k, v));
                    i = i + 1;
                }
                proof {
                    lemma_view_members(out@, out@.len());
                    lemma_view_members(members@, members@.len());
                    assert(view_members(out@, out@.len()) =~= view_members(
                        members@,
                        members@.len(),
                    ));
                }
                Json::Object(out)
            },
        }
    }
}

} // verus!
