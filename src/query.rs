use vstd::prelude::*;

use crate::json::{key_pos, lemma_key_pos};
use crate::text::{decimal, decimal_text};

verus! {

/// Query parameters as name / value pairs.
pub type Pairs = Seq<(Seq<char>, Seq<char>)>;

/// The parameters that a sequence of pairs sets: each name to the value of
/// its first pair.
pub open spec fn pairs_map(s: Pairs) -> Map<Seq<char>, Seq<char>> {
    Map::new(
        |k: Seq<char>| key_pos(s, k, 0) < s.len(),
        |k: Seq<char>| s[key_pos(s, k, 0) as int].1,
    )
}

/// Whether no two pairs share a name.
pub open spec fn unique_keys(s: Pairs) -> bool {
    forall|i: int, j: int| 0 <= i < j < s.len() ==> #[trigger] s[i].0 != #[trigger] s[j].0
}

/// The pairs with `key` set to `value`: the pair of that name keeps its
/// place with the new value, or a new pair is added at the end.
pub open spec fn set_pair(s: Pairs, key: Seq<char>, value: Seq<char>) -> Pairs {
    let p = key_pos(s, key, 0);
    if p < s.len() {
        s.update(p as int, (key, value))
    } else {
        s.push((key, value))
    }
}

/// `name=value`.
pub open spec fn pair_text(p: (Seq<char>, Seq<char>)) -> Seq<char> {
    p.0 + seq!['='] + p.1
}

/// The pairs' texts joined by `&`.
pub open spec fn join_pairs(s: Pairs) -> Seq<char>
    decreases s.len(),
{
    if s.len() == 0 {
        Seq::empty()
    } else if s.len() == 1 {
        pair_text(s[0])
    } else {
        join_pairs(s.subrange(0, s.len() - 1)) + seq!['&'] + pair_text(s[s.len() - 1])
    }
}

/// A query string: empty for no pairs, else `?` and the pairs joined by `&`.
pub open spec fn render(s: Pairs) -> Seq<char> {
    if s.len() == 0 {
        Seq::empty()
    } else {
        seq!['?'] + join_pairs(s)
    }
}

/// The position of the last `&` in `s`, or -1.
pub open spec fn last_amp(s: Seq<char>) -> int
    decreases s.len(),
{
    if s.len() == 0 {
        -1
    } else if s[s.len() - 1] == '&' {
        s.len() - 1
    } else {
        last_amp(s.subrange(0, s.len() - 1))
    }
}

/// `s` cut at every `&`.
pub open spec fn split_amp(s: Seq<char>) -> Seq<Seq<char>>
    decreases s.len(),
{
    let p = last_amp(s);
    if p < 0 || p >= s.len() {
        seq![s]
    } else {
        split_amp(s.subrange(0, p)).push(s.subrange(p + 1, s.len() as int))
    }
}

/// The position of the first `=` in `s`, or -1.
pub open spec fn first_eq(s: Seq<char>) -> int
    decreases s.len(),
{
    if s.len() == 0 {
        -1
    } else if s[0] == '=' {
        0
    } else {
        let r = first_eq(s.subrange(1, s.len() as int));
        if r < 0 {
            -1
        } else {
            r + 1
        }
    }
}

/// `name=value` read back as a pair, cut at the first `=`.
pub open spec fn parse_pair(t: Seq<char>) -> (Seq<char>, Seq<char>) {
    let p = first_eq(t);
    if p < 0 || p >= t.len() {
        (t, Seq::empty())
    } else {
        (t.subrange(0, p), t.subrange(p + 1, t.len() as int))
    }
}

/// A query string read back as its pairs.
pub open spec fn parse_query(q: Seq<char>) -> Pairs {
    if q.len() == 0 {
        Seq::empty()
    } else {
        split_amp(q.subrange(1, q.len() as int)).map_values(|t: Seq<char>| parse_pair(t))
    }
}

/// Whether `c` does not occur in `s`.
pub open spec fn free_of(s: Seq<char>, c: char) -> bool {
    forall|i: int| 0 <= i < s.len() ==> s[i] != c
}

/// Accumulates the parameters of a query on entries: filters, order,
/// pagination, depth of included links, locale and selected fields. Each
/// parameter name holds one value; a later setting replaces an earlier one.
pub struct QueryBuilder {
    query_string_values: Vec<(String, String)>,
}

impl QueryBuilder {
    /// The parameters in the order they were first set.
    pub closed spec fn pairs(&self) -> Pairs {
        self.query_string_values@.map_values(|p: (String, String)| (p.0@, p.1@))
    }

    /// The parameters, by name.
    pub open spec fn params(&self) -> Map<Seq<char>, Seq<char>> {
        pairs_map(self.pairs())
    }

    /// Each name is set at most once.
    pub open spec fn wf(&self) -> bool {
        unique_keys(self.pairs())
    }

    /// A descriptor with no parameters.
    pub fn new() -> (r: QueryBuilder)
        ensures
            r.wf(),
            r.pairs() == Seq::<(Seq<char>, Seq<char>)>::empty(),
            r.params() == Map::<Seq<char>, Seq<char>>::empty(),
    {
        let r = QueryBuilder { query_string_values: Vec::new() };
        assert(r.pairs() =~= Seq::<(Seq<char>, Seq<char>)>::empty());
        assert(r.params() =~= Map::<Seq<char>, Seq<char>>::empty());
        r
    }

    /// Sets parameter `key` to `value`.
    fn set(&mut self, key: String, value: String)
        requires
            old(self).wf(),
        ensures
            final(self).wf(),
            final(self).pairs() == set_pair(old(self).pairs(), key@, value@),
            final(self).params() == old(self).params().insert(key@, value@),
    {
        let ghost s = old(self).pairs();
        let n = self.query_string_values.len();
        let mut i: usize = 0;
        let mut found = n;
        while i < n
            invariant
                i <= n,
                n == self.query_string_values.len(),
                self.pairs() == s,
                s.len() == n,
                found <= n,
                found == n ==> forall|j: int| 0 <= j < i ==> #[trigger] s[j].0 != key@,
                found < n ==> found < i && s[found as int].0 == key@ && forall|j: int|
                    0 <= j < found ==> #[trigger] s[j].0 != key@,
            decreases n - i,
        {
            if found == n && self.query_string_values[i].0 == key {
                found = i;
            }
            i = i + 1;
        }
        i = found;
        proof {
            lemma_key_pos(s, key@, 0);
        }
        let ghost kv = (key@, value@);
        if i < self.query_string_values.len() {
            assert(s[i as int].0 == key@);
            assert(key_pos(s, key@, 0) == i);
            self.query_string_values.set(i, (key, value));
            assert(self.pairs() =~= s.update(i as int, kv));
        } else {
            proof {
                let r = key_pos(s, key@, 0);
                if r < s.len() {
                    assert(s[r as int].0 == key@);
                }
            }
            assert(key_pos(s, key@, 0) == s.len());
            self.query_string_values.push((key, value));
            assert(self.pairs() =~= s.push(kv));
        }
        proof {
            lemma_set_pair(s, kv.0, kv.1);
        }
    }

    /// Renders the parameters as a query string: `?` followed by
    /// `name=value` pairs joined by `&`, or nothing when there are none.
    pub fn build(&self) -> (r: String)
        ensures
            r@ == render(self.pairs()),
    {
        let ghost s = self.pairs();
        let mut query_string = String::new();
        let mut i: usize = 0;
        proof {
            reveal_strlit("?");
            reveal_strlit("&");
            reveal_strlit("=");
        }
        while i < self.query_string_values.len()
            invariant
                i <= self.query_string_values.len(),
                s == self.pairs(),
                s.len() == self.query_string_values.len(),
                query_string@ == render(s.subrange(0, i as int)),
                "?"@ == seq!['?'],
                "&"@ == seq!['&'],
                "="@ == seq!['='],
            decreases self.query_string_values.len() - i,
        {
            let ghost before = query_string@;
            if i == 0 {
                query_string.append("?");
            } else {
                query_string.append("&");
            }
            query_string.append(self.query_string_values[i].0.as_str());
            query_string.append("=");
            query_string.append(self.query_string_values[i].1.as_str());
            proof {
                let t = s.subrange(0, i + 1);
                assert(t[t.len() - 1] == s[i as int]);
                if i == 0 {
                    assert(query_string@ =~= seq!['?'] + pair_text(s[0]));
                } else {
                    assert(t.subrange(0, t.len() - 1) =~= s.subrange(0, i as int));
                    assert(query_string@ =~= seq!['?'] + (join_pairs(s.subrange(0, i as int))
                        + seq!['&'] + pair_text(s[i as int])));
                }
            }
            i = i + 1;
        }
        assert(s.subrange(0, i as int) =~= s);
        query_string
    }

    /// Sets a parameter whose name is `field` followed by `operator`
    /// (`[ne]`, `[in]`, ...).
    pub fn add_field_restriction(self, field: &str, value: &str, operator: &str) -> (r:
        QueryBuilder)
        requires
            self.wf(),
        ensures
            r.wf(),
            r.params() == self.params().insert(field@ + operator@, value@),
    {
        let mut q = self;
        let key = field.to_owned().concat(operator);
        q.set(key, value.to_owned());
        q
    }

    /// Restricts the entries to one content type.
    pub fn content_type_is(self, content_type_id: &str) -> (r: QueryBuilder)
        requires
            self.wf(),
        ensures
            r.wf(),
            r.params() == self.params().insert("content_type"@, content_type_id@),
    {
        let mut q = self;
        q.set("content_type".to_owned(), content_type_id.to_owned());
        q
    }

    /// Orders the entries, by the service's order expression.
    pub fn order_by(self, order: &str) -> (r: QueryBuilder)
        requires
            self.wf(),
        ensures
            r.wf(),
            r.params() == self.params().insert("order"@, order@),
    {
        let mut q = self;
        q.set("order".to_owned(), order.to_owned());
        q
    }

    /// Returns at most `limit` entries.
    pub fn limit(self, limit: i32) -> (r: QueryBuilder)
        requires
            self.wf(),
        ensures
            r.wf(),
            r.params() == self.params().insert("limit"@, decimal_text(limit as int)),
    {
        let mut q = self;
        q.set("limit".to_owned(), decimal(limit));
        q
    }

    /// Skips the first `skip` entries.
    pub fn skip(self, skip: i32) -> (r: QueryBuilder)
        requires
            self.wf(),
        ensures
            r.wf(),
            r.params() == self.params().insert("skip"@, decimal_text(skip as int)),
    {
        let mut q = self;
        q.set("skip".to_owned(), decimal(skip));
        q
    }

    /// Asks the service to send the objects that entries link to along with
    /// them, `level` links deep. (The parameter's name is written with an
    /// escape: `i` is `\x69`.)
    pub fn include_levels(self, level: i32) -> (r: QueryBuilder)
        requires
            self.wf(),
        ensures
            r.wf(),
            r.params() == self.params().insert("\x69nclude"@, decimal_text(level as int)),
    {
        let mut q = self;
        q.set("\x69nclude".to_owned(), decimal(level));
        q
    }

    /// Sets the parameter named `locale` to `value`.
    pub fn locale_is(self, locale: &str, value: &str) -> (r: QueryBuilder)
        requires
            self.wf(),
        ensures
            r.wf(),
            r.params() == self.params().insert(locale@, value@),
    {
        let mut q = self;
        q.set(locale.to_owned(), value.to_owned());
        q
    }

    /// Keeps the entries whose `field` equals `value`.
    pub fn field_equals(self, field: &str, value: &str) -> (r: QueryBuilder)
        requires
            self.wf(),
        ensures
            r.wf(),
            r.params() == self.params().insert(field@, value@),
    {
        let mut q = self;
        q.set(field.to_owned(), value.to_owned());
        q
    }

    /// Keeps the entries whose `field` differs from `value`.
    pub fn field_does_not_equal(self, field: &str, value: &str) -> (r: QueryBuilder)
        requires
            self.wf(),
        ensures
            r.wf(),
            r.params() == self.params().insert(field@ + "[ne]"@, value@),
    {
        self.add_field_restriction(field, value, "[ne]")
    }

    /// Keeps the entries whose `field` holds all of the comma-separated `values`.
    pub fn field_equals_all(self, field: &str, values: &str) -> (r: QueryBuilder)
        requires
            self.wf(),
        ensures
            r.wf(),
            r.params() == self.params().insert(field@ + "[all]"@, values@),
    {
        self.add_field_restriction(field, values, "[all]")
    }

    /// Keeps the entries whose `field` is one of the comma-separated `values`.
    pub fn field_includes(self, field: &str, values: &str) -> (r: QueryBuilder)
        requires
            self.wf(),
        ensures
            r.wf(),
            r.params() == self.params().insert(field@ + "[in]"@, values@),
    {
        self.add_field_restriction(field, values, "[in]")
    }

    /// Keeps the entries whose `field` is none of the comma-separated `values`.
    pub fn field_excludes(self, field: &str, values: &str) -> (r: QueryBuilder)
        requires
            self.wf(),
        ensures
            r.wf(),
            r.params() == self.params().insert(field@ + "[nin]"@, values@),
    {
        self.add_field_restriction(field, values, "[nin]")
    }

    /// Keeps the entries that have (or lack) `field`.
    pub fn field_exists(self, field: &str, must_exist: bool) -> (r: QueryBuilder)
        requires
            self.wf(),
        ensures
            r.wf(),
            r.params() == self.params().insert(
                field@ + "[exists]"@,
                if must_exist {
                    "true"@
                } else {
                    "false"@
                },
            ),
    {
        let value = if must_exist {
            "true"
        } else {
            "false"
        };
        self.add_field_restriction(field, value, "[exists]")
    }

    /// Keeps the entries whose `field` is below `value`.
    pub fn field_less_than(self, field: &str, value: &str) -> (r: QueryBuilder)
        requires
            self.wf(),
        ensures
            r.wf(),
            r.params() == self.params().insert(field@ + "[lt]"@, value@),
    {
        self.add_field_restriction(field, value, "[lt]")
    }

    /// Keeps the entries whose `field` is at most `value`.
    pub fn field_less_than_or_equal_to(self, field: &str, value: &str) -> (r: QueryBuilder)
        requires
            self.wf(),
        ensures
            r.wf(),
            r.params() == self.params().insert(field@ + "[lte]"@, value@),
    {
        self.add_field_restriction(field, value, "[lte]")
    }

    /// Keeps the entries whose `field` is above `value`.
    pub fn field_greater_than(self, field: &str, value: &str) -> (r: QueryBuilder)
        requires
            self.wf(),
        ensures
            r.wf(),
            r.params() == self.params().insert(field@ + "[gt]"@, value@),
    {
        self.add_field_restriction(field, value, "[gt]")
    }

    /// Keeps the entries whose `field` is at least `value`.
    pub fn field_greater_than_or_equal_to(self, field: &str, value: &str) -> (r: QueryBuilder)
        requires
            self.wf(),
        ensures
            r.wf(),
            r.params() == self.params().insert(field@ + "[gte]"@, value@),
    {
        self.add_field_restriction(field, value, "[gte]")
    }

    /// Keeps the entries whose `field` matches the full-text `value`.
    pub fn field_matches(self, field: &str, value: &str) -> (r: QueryBuilder)
        requires
            self.wf(),
        ensures
            r.wf(),
            r.params() == self.params().insert(field@ + "[match]"@, value@),
    {
        self.add_field_restriction(field, value, "[match]")
    }

    /// Keeps the entries that link to the entry `id`.
    pub fn links_to_entry(self, id: &str) -> (r: QueryBuilder)
        requires
            self.wf(),
        ensures
            r.wf(),
            r.params() == self.params().insert("links_to_entry"@ + ""@, id@),
    {
        self.add_field_restriction("links_to_entry", id, "")
    }

    /// Keeps the entries that link to the asset `id`.
    pub fn links_to_asset(self, id: &str) -> (r: QueryBuilder)
        requires
            self.wf(),
        ensures
            r.wf(),
            r.params() == self.params().insert("links_to_asset"@ + ""@, id@),
    {
        self.add_field_restriction("links_to_asset", id, "")
    }

    /// Returns only the comma-separated `fields` of each entry.
    pub fn select_fields(self, fields: &str) -> (r: QueryBuilder)
        requires
            self.wf(),
        ensures
            r.wf(),
            r.params() == self.params().insert("select"@, fields@),
    {
        let mut q = self;
        q.set("select".to_owned(), fields.to_owned());
        q
    }
}

proof fn lemma_set_pair(s: Pairs, key: Seq<char>, value: Seq<char>)
    requires
        unique_keys(s),
    ensures
        unique_keys(set_pair(s, key, value)),
        pairs_map(set_pair(s, key, value)) == pairs_map(s).insert(key, value),
{
    let t = set_pair(s, key, value);
    let p = key_pos(s, key, 0);
    lemma_key_pos(s, key, 0);
    assert(p < t.len() && t[p as int] == (key, value));
    assert(forall|j: int| 0 <= j < s.len() && j != p ==> #[trigger] t[j] == s[j]);
    assert forall|k: Seq<char>|
        #![trigger pairs_map(t).contains_key(k)]
        #![trigger pairs_map(s).insert(key, value).contains_key(k)]
        pairs_map(t).contains_key(k) == pairs_map(s).insert(key, value).contains_key(k) && (
        pairs_map(t).contains_key(k) ==> pairs_map(t)[k] == pairs_map(s).insert(key, value)[k]) by {
        lemma_key_pos(s, k, 0);
        lemma_key_pos(t, k, 0);
        let rs = key_pos(s, k, 0);
        let rt = key_pos(t, k, 0);
        if k == key {
            if rt < p {
                assert(t[rt as int].0 == k);
                assert(s[rt as int].0 == k);
            }
            if rt > p {
                assert(t[p as int].0 != k);
            }
            assert(rt == p);
        } else {
            if rt < rs {
                assert(t[rt as int].0 == k);
                if rt < s.len() && rt != p {
                    assert(s[rt as int].0 == k);
                }
            }
            if rs < rt && rs < s.len() {
                assert(s[rs as int].0 == k);
                assert(t[rs as int].0 == k);
            }
            if rt == rs && rt < s.len() {
                assert(rt != p);
            }
            assert(rt < t.len() <==> rs < s.len());
        }
    }
    assert(pairs_map(t) =~= pairs_map(s).insert(key, value));
    assert forall|i: int, j: int| 0 <= i < j < t.len() implies #[trigger] t[i].0 != #[trigger] t[j].0 by {
        if i == p || j == p {
            if j == p && i < s.len() {
                assert(s[i].0 != key);
            }
            if i == p && j < s.len() {
                assert(s[j].0 != s[i].0);
            }
        } else if j < s.len() {
            assert(s[i].0 != s[j].0);
        }
    }
}

proof fn lemma_last_amp(a: Seq<char>, b: Seq<char>)
    requires
        free_of(b, '&'),
    ensures
        last_amp(a + seq!['&'] + b) == a.len(),
        free_of(a, '&') ==> last_amp(a) == -1,
    decreases a.len() + b.len(),
{
    if b.len() > 0 {
        let whole = a + seq!['&'] + b;
        assert(whole.subrange(0, whole.len() - 1) =~= a + seq!['&'] + b.subrange(0, b.len() - 1));
        lemma_last_amp(a, b.subrange(0, b.len() - 1));
    } else {
        assert(a + seq!['&'] + b =~= a.push('&'));
        if a.len() > 0 && free_of(a, '&') {
            lemma_last_amp(a.subrange(0, a.len() - 1), b);
        }
    }
}

proof fn lemma_first_eq(k: Seq<char>, v: Seq<char>)
    requires
        free_of(k, '='),
    ensures
        first_eq(k + seq!['='] + v) == k.len(),
    decreases k.len(),
{
    let whole = k + seq!['='] + v;
    if k.len() > 0 {
        assert(whole.subrange(1, whole.len() as int) =~= k.subrange(1, k.len() as int) + seq!['=']
            + v);
        lemma_first_eq(k.subrange(1, k.len() as int), v);
    }
}

proof fn lemma_split_join(s: Pairs)
    requires
        s.len() > 0,
        forall|i: int| 0 <= i < s.len() ==> free_of(#[trigger] s[i].0, '&') && free_of(s[i].1, '&'),
    ensures
        split_amp(join_pairs(s)) == s.map_values(|p: (Seq<char>, Seq<char>)| pair_text(p)),
    decreases s.len(),
{
    let last = pair_text(s[s.len() - 1]);
    assert(free_of(last, '&'));
    if s.len() == 1 {
        lemma_last_amp(last, Seq::empty());
        assert(s.map_values(|p: (Seq<char>, Seq<char>)| pair_text(p)) =~= seq![last]);
    } else {
        let pre = s.subrange(0, s.len() - 1);
        lemma_split_join(pre);
        let whole = join_pairs(pre) + seq!['&'] + last;
        lemma_last_amp(join_pairs(pre), last);
        assert(whole.subrange(0, join_pairs(pre).len() as int) =~= join_pairs(pre));
        assert(whole.subrange(join_pairs(pre).len() + 1int, whole.len() as int) =~= last);
        assert(s.map_values(|p: (Seq<char>, Seq<char>)| pair_text(p)) =~= pre.map_values(
            |p: (Seq<char>, Seq<char>)| pair_text(p),
        ).push(last));
    }
}

/// Reading back what `build` renders gives every parameter, with its value,
/// exactly once: as long as no name holds `&` or `=` and no value holds `&`,
/// the parsed pairs are the descriptor's pairs, and so name the same
/// parameters with the same values whatever order they were emitted in.
pub proof fn lemma_build_parses_back(q: QueryBuilder)
    requires
        q.wf(),
        forall|k: Seq<char>| #[trigger] q.params().contains_key(k) ==> free_of(k, '&') && free_of(k, '='),
        forall|k: Seq<char>| #[trigger] q.params().contains_key(k) ==> free_of(q.params()[k], '&'),
    ensures
        parse_query(render(q.pairs())) == q.pairs(),
        pairs_map(parse_query(render(q.pairs()))) == q.params(),
{
    let s = q.pairs();
    if s.len() > 0 {
        assert forall|i: int| 0 <= i < s.len() implies free_of(#[trigger] s[i].0, '&') && free_of(
            s[i].1,
            '&',
        ) && free_of(s[i].0, '=') by {
            lemma_key_pos(s, s[i].0, 0);
            assert(q.params().contains_key(s[i].0));
            let p = key_pos(s, s[i].0, 0);
            if p != i {
                assert(s[p as int].0 == s[i].0);
            }
        }
        lemma_split_join(s);
        let r = render(s);
        assert(r.subrange(1, r.len() as int) =~= join_pairs(s));
        let texts = s.map_values(|p: (Seq<char>, Seq<char>)| pair_text(p));
        assert forall|i: int| 0 <= i < s.len() implies #[trigger] parse_pair(texts[i]) == s[i] by {
            lemma_first_eq(s[i].0, s[i].1);
            let t = texts[i];
            assert(t.subrange(0, s[i].0.len() as int) =~= s[i].0);
            assert(t.subrange(s[i].0.len() + 1int, t.len() as int) =~= s[i].1);
        }
        assert(parse_query(r) =~= s);
    } else {
        assert(render(s) =~= Seq::<char>::empty());
        assert(parse_query(render(s)) =~= s);
    }
}

/// Setting a parameter twice leaves the value of the second setting.
pub proof fn lemma_last_write_wins(
    params: Map<Seq<char>, Seq<char>>,
    key: Seq<char>,
    first: Seq<char>,
    second: Seq<char>,
)
    ensures
        params.insert(key, first).insert(key, second) == params.insert(key, second),
{
    assert(params.insert(key, first).insert(key, second) =~= params.insert(key, second));
}

} // verus!
