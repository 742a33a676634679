use vstd::prelude::*;
use crate::text::str_eq;

verus! {

/// A JSON number, in the three forms a JSON document distinguishes:
/// a non-negative integer, a negative integer, and a floating-point
/// number held as the IEEE-754 bits of an `f64`.
#[derive(Clone, Copy, PartialEq, Eq, Structural)]
pub enum JsonNumber {
    PosInt(u64),
    NegInt(i64),
    Float(u64),
}

/// A JSON value.
///
/// Objects keep their entries in order; when a key occurs more than once,
/// the last entry for it is the one that counts.
pub enum Json {
    Null,
    Bool(bool),
    Number(JsonNumber),
    String(String),
    Array(Vec<Json>),
    Object(Vec<(String, Json)>),
}

/// The mathematical model of a [`Json`] value.
pub enum JsonView {
    Null,
    Bool(bool),
    Number(JsonNumber),
    Str(Seq<char>),
    Array(Seq<JsonView>),
    Object(Seq<(Seq<char>, JsonView)>),
}

pub open spec fn json_view(j: Json) -> JsonView
    decreases j,
{
    match j {
        Json::Null => JsonView::Null,
        Json::Bool(b) => JsonView::Bool(b),
        Json::Number(n) => JsonView::Number(n),
        Json::String(s) => JsonView::Str(s@),
        Json::Array(items) => JsonView::Array(
            Seq::new(
                items.len() as nat,
                |i: int|
                    if 0 <= i < items.len() {
                        json_view(items[i])
                    } else {
                        JsonView::Null
                    },
            ),
        ),
        Json::Object(entries) => JsonView::Object(
            Seq::new(
                entries.len() as nat,
                |i: int|
                    if 0 <= i < entries.len() {
                        (entries[i].0@, json_view(entries[i].1))
                    } else {
                        (Seq::empty(), JsonView::Null)
                    },
            ),
        ),
    }
}

impl View for Json {
    type V = JsonView;

    open spec fn view(&self) -> JsonView {
        json_view(*self)
    }
}

} // verus!

verus! {

/// Position of the last entry whose key is `key`, or -1 when there is none.
pub open spec fn last_key_index(entries: Seq<(Seq<char>, JsonView)>, key: Seq<char>) -> int
    decreases entries.len(),
{
    if entries.len() == 0 {
        -1
    } else if entries.last().0 == key {
        entries.len() - 1
    } else {
        last_key_index(entries.drop_last(), key)
    }
}

/// The value an object holds for `key`: that of its last entry with this key.
pub open spec fn entry_value(entries: Seq<(Seq<char>, JsonView)>, key: Seq<char>) -> Option<
    JsonView,
> {
    let i = last_key_index(entries, key);
    if i >= 0 {
        Some(entries[i].1)
    } else {
        None
    }
}

impl JsonView {
    /// `Some` of the value held for `key` when this is an object holding it.
    pub open spec fn get(self, key: Seq<char>) -> Option<JsonView> {
        match self {
            JsonView::Object(entries) => entry_value(entries, key),
            _ => None,
        }
    }

    /// The value held for `key`, or `Null` when there is none (indexing).
    pub open spec fn at(self, key: Seq<char>) -> JsonView {
        match self.get(key) {
            Some(v) => v,
            None => JsonView::Null,
        }
    }

    pub open spec fn as_str(self) -> Option<Seq<char>> {
        match self {
            JsonView::Str(s) => Some(s),
            _ => None,
        }
    }

    pub open spec fn as_array(self) -> Option<Seq<JsonView>> {
        match self {
            JsonView::Array(items) => Some(items),
            _ => None,
        }
    }

    /// Sets the value held for `key`: the last entry with this key is
    /// replaced in place, or a new entry is appended when there is none.
    pub open spec fn with_entry(self, key: Seq<char>, value: JsonView) -> JsonView {
        match self {
            JsonView::Object(entries) => {
                let i = last_key_index(entries, key);
                if i >= 0 {
                    JsonView::Object(entries.update(i, (key, value)))
                } else {
                    JsonView::Object(entries.push((key, value)))
                }
            },
            _ => self,
        }
    }
}

pub proof fn lemma_last_key_index_range(entries: Seq<(Seq<char>, JsonView)>, key: Seq<char>)
    ensures
        -1 <= last_key_index(entries, key) < entries.len(),
        last_key_index(entries, key) >= 0 ==> entries[last_key_index(entries, key)].0 == key,
        last_key_index(entries, key) == -1 ==> forall|j: int|
            0 <= j < entries.len() ==> #[trigger] entries[j].0 != key,
    decreases entries.len(),
{
    if entries.len() > 0 {
        lemma_last_key_index_range(entries.drop_last(), key);
        if entries.last().0 != key && last_key_index(entries, key) == -1 {
            assert forall|j: int| 0 <= j < entries.len() implies #[trigger] entries[j].0 != key by {
                if j < entries.len() - 1 {
                    assert(entries.drop_last()[j] == entries[j]);
                }
            }
        }
    }
}

pub proof fn lemma_last_key_index_prefix(entries: Seq<(Seq<char>, JsonView)>, key: Seq<char>, i: int)
    requires
        0 <= i <= entries.len(),
        forall|j: int| i <= j < entries.len() ==> #[trigger] entries[j].0 != key,
    ensures
        last_key_index(entries, key) == last_key_index(entries.subrange(0, i), key),
    decreases entries.len() - i,
{
    if i < entries.len() {
        let s = entries.drop_last();
        assert forall|j: int| i <= j < s.len() implies #[trigger] s[j].0 != key by {
            assert(s[j] == entries[j]);
        }
        lemma_last_key_index_prefix(s, key, i);
        assert(s.subrange(0, i) =~= entries.subrange(0, i));
    } else {
        assert(entries.subrange(0, i) =~= entries);
    }
}

/// Index of the last entry whose key is `key`.
fn find_key(entries: &Vec<(String, Json)>, key: &str) -> (r: Option<usize>)
    ensures
        ({
            let v = json_view(Json::Object(*entries));
            let k = last_key_index(v->Object_0, key@);
            match r {
                Some(i) => k == i && i < entries.len(),
                None => k == -1,
            }
        }),
{
    let ghost v = json_view(Json::Object(*entries));
    let ghost ents = v->Object_0;
    let mut i = entries.len();
    while i > 0
        invariant
            i <= entries.len(),
            ents.len() == entries.len(),
            ents == json_view(Json::Object(*entries))->Object_0,
            forall|j: int| i <= j < ents.len() ==> #[trigger] ents[j].0 != key@,
        decreases i,
    {
        let idx = i - 1;
        if str_eq(entries[idx].0.as_str(), key) {
            proof {
                lemma_last_key_index_prefix(ents, key@, i as int);
                let p = ents.subrange(0, i as int);
                assert(p.drop_last() == ents.subrange(0, idx as int));
            }
            return Some(idx);
        }
        i = idx;
    }
    proof {
        lemma_last_key_index_prefix(ents, key@, 0);
    }
    None
}

/// A copy of `j`.
pub fn clone_json(j: &Json) -> (r: Json)
    ensures
        r@ == j@,
    decreases j,
{
    match j {
        Json::Null => Json::Null,
        Json::Bool(b) => Json::Bool(*b),
        Json::Number(n) => Json::Number(*n),
        Json::String(s) => Json::String(s.clone()),
        Json::Array(items) => {
            let mut out: Vec<Json> = Vec::new();
            let mut i: usize = 0;
            while i < items.len()
                invariant
                    *j == Json::Array(*items),
                    i <= items.len(),
                    out.len() == i,
                    forall|k: int| 0 <= k < i ==> #[trigger] json_view(out[k]) == json_view(items[k]),
                decreases items.len() - i,
            {
                proof {
                    vstd::std_specs::vec::axiom_vec_index_decreases(*items, i as int);
                    assert(decreases_to!(*j => j->Array_0));
                    assert(decreases_to!(*j => items[i as int]));
                }
                let c = clone_json(&items[i]);
                out.push(c);
                i = i + 1;
            }
            assert(json_view(Json::Array(out)) == json_view(*j)) by {
                let a = json_view(Json::Array(out))->Array_0;
                let b = json_view(*j)->Array_0;
                assert(a.len() == b.len());
                assert forall|k: int| 0 <= k < a.len() implies a[k] == b[k] by {
                    assert(json_view(out[k]) == json_view(items[k]));
                }
                assert(a =~= b);
            }
            Json::Array(out)
        },
        Json::Object(entries) => {
            let mut out: Vec<(String, Json)> = Vec::new();
            let mut i: usize = 0;
            while i < entries.len()
                invariant
                    *j == Json::Object(*entries),
                    i <= entries.len(),
                    out.len() == i,
                    forall|k: int|
                        0 <= k < i ==> #[trigger] out[k].0@ == entries[k].0@ && json_view(out[k].1)
                            == json_view(entries[k].1),
                decreases entries.len() - i,
            {
                proof {
                    vstd::std_specs::vec::axiom_vec_index_decreases(*entries, i as int);
                    assert(decreases_to!(*j => j->Object_0));
                    assert(decreases_to!(*j => entries[i as int].1));
                }
                let key = entries[i].0.clone();
                let c = clone_json(&entries[i].1);
                out.push((key, c));
                i = i + 1;
            }
            assert(json_view(Json::Object(out)) == json_view(*j)) by {
                assert(json_view(Json::Object(out))->Object_0 =~= json_view(*j)->Object_0);
            }
            Json::Object(out)
        },
    }
}

} // verus!

verus! {

/// The model of an optional borrowed value.
pub open spec fn opt_view(o: Option<&Json>) -> Option<JsonView> {
    match o {
        Some(v) => Some(v@),
        None => None,
    }
}

/// The model of an optional string.
pub open spec fn opt_str_view(o: Option<String>) -> Option<Seq<char>> {
    match o {
        Some(s) => Some(s@),
        None => None,
    }
}

impl Json {
    /// The value held for `key` when this is an object holding it.
    pub fn get(&self, key: &str) -> (r: Option<&Json>)
        ensures
            opt_view(r) == self@.get(key@),
    {
        match self {
            Json::Object(entries) => {
                let ghost ents = self@->Object_0;
                match find_key(entries, key) {
                    Some(i) => {
                        assert(ents[i as int] == (entries[i as int].0@, json_view(entries[i as int].1)));
                        Some(&entries[i].1)
                    },
                    None => None,
                }
            },
            _ => None,
        }
    }

    pub fn as_str(&self) -> (r: Option<&str>)
        ensures
            match r {
                Some(s) => self@.as_str() == Some(s@),
                None => self@.as_str() is None,
            },
    {
        match self {
            Json::String(s) => Some(s.as_str()),
            _ => None,
        }
    }

    pub fn as_array(&self) -> (r: Option<&Vec<Json>>)
        ensures
            match r {
                Some(items) => self@.as_array() == Some(json_view(Json::Array(*items))->Array_0),
                None => self@.as_array() is None,
            },
    {
        match self {
            Json::Array(items) => Some(items),
            _ => None,
        }
    }

    /// The string held for `key`, copied, when this is an object holding a
    /// string there.
    pub fn str_at(&self, key: &str) -> (r: Option<String>)
        ensures
            opt_str_view(r) == self@.at(key@).as_str(),
    {
        match self.get(key) {
            Some(v) => match v.as_str() {
                Some(s) => Some(s.to_owned()),
                None => None,
            },
            None => None,
        }
    }

    /// Sets the value held for `key` in this object.
    pub fn insert(&mut self, key: String, value: Json)
        requires
            old(self)@ is Object,
        ensures
            final(self)@ == old(self)@.with_entry(key@, value@),
    {
        let ghost old_view = self@;
        let ghost kv = key@;
        let ghost vv = value@;
        let mut taken = Json::Null;
        std::mem::swap(&mut taken, self);
        let mut entries = match taken {
            Json::Object(entries) => entries,
            _ => Vec::new(),
        };
        let ghost before = entries;
        assert(json_view(Json::Object(before)) == old_view);
        match find_key(&entries, key.as_str()) {
            Some(i) => {
                entries.set(i, (key, value));
                proof {
                    let a = json_view(Json::Object(entries))->Object_0;
                    let b = old_view->Object_0.update(i as int, (kv, vv));
                    assert(a.len() == b.len());
                    assert forall|k: int| 0 <= k < a.len() implies a[k] == b[k] by {
                        if k != i {
                            assert(entries[k] == before[k]);
                        }
                    }
                    assert(a =~= b);
                }
            },
            None => {
                entries.push((key, value));
                proof {
                    let a = json_view(Json::Object(entries))->Object_0;
                    let b = old_view->Object_0.push((kv, vv));
                    assert(a.len() == b.len());
                    assert forall|k: int| 0 <= k < a.len() implies a[k] == b[k] by {
                        if k < before.len() {
                            assert(entries[k] == before[k]);
                        }
                    }
                    assert(a =~= b);
                }
            },
        }
        *self = Json::Object(entries);
    }
}

/// An object without entries.
pub fn empty_object() -> (r: Json)
    ensures
        r@ == JsonView::Object(Seq::empty()),
{
    let r = Json::Object(Vec::new());
    assert(r@->Object_0 =~= Seq::empty());
    r
}

/// A string value holding `s`, taken over.
pub fn json_string(s: String) -> (r: Json)
    ensures
        r@ == JsonView::Str(s@),
{
    Json::String(s)
}

/// A string value holding `s`.
pub fn json_str(s: &str) -> (r: Json)
    ensures
        r@ == JsonView::Str(s@),
{
    Json::String(s.to_owned())
}

} // verus!

verus! {

/// The model of a list of object entries.
pub open spec fn entries_view(es: Seq<(String, Json)>) -> Seq<(Seq<char>, JsonView)> {
    Seq::new(es.len(), |i: int| (es[i].0@, json_view(es[i].1)))
}

/// `v` after setting each of `es` in turn.
pub open spec fn with_entries(v: JsonView, es: Seq<(Seq<char>, JsonView)>) -> JsonView
    decreases es.len(),
{
    if es.len() == 0 {
        v
    } else {
        with_entries(v, es.drop_last()).with_entry(es.last().0, es.last().1)
    }
}

/// The object that setting each of `es` in turn on an empty object gives.
pub open spec fn object_of(es: Seq<(Seq<char>, JsonView)>) -> JsonView {
    with_entries(JsonView::Object(Seq::empty()), es)
}

proof fn lemma_last_key_index_after(s: Seq<(Seq<char>, JsonView)>, k: Seq<char>)
    ensures
        last_key_index(s, k) >= 0 ==> forall|j: int|
            last_key_index(s, k) < j < s.len() ==> #[trigger] s[j].0 != k,
    decreases s.len(),
{
    if s.len() > 0 && s.last().0 != k {
        lemma_last_key_index_after(s.drop_last(), k);
        if last_key_index(s, k) >= 0 {
            assert forall|j: int| last_key_index(s, k) < j < s.len() implies #[trigger] s[j].0 != k by {
                if j < s.len() - 1 {
                    assert(s.drop_last()[j] == s[j]);
                }
            }
        }
    }
}

pub proof fn lemma_last_key_index_at(s: Seq<(Seq<char>, JsonView)>, k: Seq<char>, i: int)
    requires
        0 <= i < s.len(),
        s[i].0 == k,
        forall|j: int| i < j < s.len() ==> #[trigger] s[j].0 != k,
    ensures
        last_key_index(s, k) == i,
{
    lemma_last_key_index_prefix(s, k, i + 1);
    let p = s.subrange(0, i + 1);
    assert(p.last() == s[i]);
}

proof fn lemma_last_key_index_same_keys(
    s1: Seq<(Seq<char>, JsonView)>,
    s2: Seq<(Seq<char>, JsonView)>,
    k: Seq<char>,
)
    requires
        s1.len() == s2.len(),
        forall|j: int| 0 <= j < s1.len() ==> #[trigger] s1[j].0 == s2[j].0,
    ensures
        last_key_index(s1, k) == last_key_index(s2, k),
    decreases s1.len(),
{
    if s1.len() > 0 {
        let a = s1.drop_last();
        let b = s2.drop_last();
        assert forall|j: int| 0 <= j < a.len() implies #[trigger] a[j].0 == b[j].0 by {
            assert(a[j] == s1[j] && b[j] == s2[j]);
        }
        lemma_last_key_index_same_keys(a, b, k);
        assert(s1.last().0 == s2[s2.len() - 1].0);
    }
}

/// Setting `key` in an object: reading `key` back gives the value set;
/// reading any other key gives what it gave before.
pub proof fn lemma_with_entry_get(v: JsonView, key: Seq<char>, value: JsonView, k: Seq<char>)
    requires
        v is Object,
    ensures
        v.with_entry(key, value) is Object,
        v.with_entry(key, value).get(k) == (if k == key {
            Some(value)
        } else {
            v.get(k)
        }),
{
    let entries = v->Object_0;
    let i = last_key_index(entries, key);
    lemma_last_key_index_range(entries, key);
    lemma_last_key_index_range(entries, k);
    if i >= 0 {
        let e2 = entries.update(i, (key, value));
        assert forall|j: int| 0 <= j < entries.len() implies #[trigger] entries[j].0 == e2[j].0 by {}
        lemma_last_key_index_same_keys(entries, e2, k);
        if k == key {
            lemma_last_key_index_after(entries, key);
        } else {
            let ik = last_key_index(entries, k);
            if ik >= 0 {
                assert(ik != i);
                assert(e2[ik] == entries[ik]);
            }
        }
    } else {
        let e2 = entries.push((key, value));
        assert(e2.drop_last() =~= entries);
        assert(e2.last() == (key, value));
        if k != key {
            let ik = last_key_index(entries, k);
            if ik >= 0 {
                assert(e2[ik] == entries[ik]);
            }
        }
    }
}

pub proof fn lemma_with_entries_object(v: JsonView, es: Seq<(Seq<char>, JsonView)>)
    requires
        v is Object,
    ensures
        with_entries(v, es) is Object,
    decreases es.len(),
{
    if es.len() > 0 {
        lemma_with_entries_object(v, es.drop_last());
        lemma_with_entry_get(with_entries(v, es.drop_last()), es.last().0, es.last().1, es.last().0);
    }
}

/// Reading a key of the object built from `es` gives the value of the last
/// entry of `es` with that key, or nothing when `es` has none.
pub proof fn lemma_object_of_get(es: Seq<(Seq<char>, JsonView)>, k: Seq<char>)
    ensures
        object_of(es) is Object,
        object_of(es).get(k) == entry_value(es, k),
    decreases es.len(),
{
    let e = JsonView::Object(Seq::empty());
    lemma_with_entries_object(e, es);
    if es.len() == 0 {
        assert(last_key_index(Seq::<(Seq<char>, JsonView)>::empty(), k) == -1);
    } else {
        let p = es.drop_last();
        lemma_object_of_get(p, k);
        lemma_with_entries_object(e, p);
        lemma_with_entry_get(with_entries(e, p), es.last().0, es.last().1, k);
        lemma_last_key_index_range(p, k);
        if es.last().0 != k {
            let ik = last_key_index(p, k);
            if ik >= 0 {
                assert(p[ik] == es[ik]);
            }
        }
    }
}

/// Sets each entry of `es` in turn on the object `obj`.
pub fn insert_entries(obj: &mut Json, es: &Vec<(String, Json)>)
    requires
        old(obj)@ is Object,
    ensures
        final(obj)@ == with_entries(old(obj)@, entries_view(es@)),
{
    let ghost start = obj@;
    let mut i: usize = 0;
    while i < es.len()
        invariant
            i <= es.len(),
            start is Object,
            obj@ == with_entries(start, entries_view(es@.subrange(0, i as int))),
        decreases es.len() - i,
    {
        proof {
            lemma_with_entries_object(start, entries_view(es@.subrange(0, i as int)));
        }
        let key = es[i].0.clone();
        let value = clone_json(&es[i].1);
        obj.insert(key, value);
        proof {
            let s = entries_view(es@.subrange(0, i + 1));
            assert(s.drop_last() =~= entries_view(es@.subrange(0, i as int)));
            assert(s.last() == (es[i as int].0@, json_view(es[i as int].1)));
        }
        i = i + 1;
    }
    assert(es@.subrange(0, es.len() as int) =~= es@);
}

/// The object made of `es`, a later entry for a key replacing an earlier one.
pub fn object_from_entries(es: &Vec<(String, Json)>) -> (r: Json)
    ensures
        r@ == object_of(entries_view(es@)),
{
    let mut r = empty_object();
    insert_entries(&mut r, es);
    r
}

impl Clone for Json {
    fn clone(&self) -> (r: Self)
        ensures
            r@ == self@,
    {
        clone_json(self)
    }
}

} // verus!

verus! {

/// The models of a list of values.
pub open spec fn items_view(items: Seq<Json>) -> Seq<JsonView> {
    Seq::new(items.len(), |i: int| json_view(items[i]))
}

/// A copy of each of `items`.
pub fn clone_items(items: &Vec<Json>) -> (r: Vec<Json>)
    ensures
        items_view(r@) == items_view(items@),
{
    let mut out: Vec<Json> = Vec::new();
    let mut i: usize = 0;
    while i < items.len()
        invariant
            i <= items.len(),
            out.len() == i,
            forall|k: int| 0 <= k < i ==> #[trigger] json_view(out[k]) == json_view(items[k]),
        decreases items.len() - i,
    {
        out.push(clone_json(&items[i]));
        i = i + 1;
    }
    assert(items_view(out@) =~= items_view(items@));
    out
}

/// An array holding `items`.
pub fn json_array(items: Vec<Json>) -> (r: Json)
    ensures
        r@ == JsonView::Array(items_view(items@)),
{
    let r = Json::Array(items);
    assert(r@->Array_0 =~= items_view(items@));
    r
}

} // verus!

verus! {

/// Appends a copy of each entry of `src` to `dst`.
pub fn append_entries(dst: &mut Vec<(String, Json)>, src: &Vec<(String, Json)>)
    ensures
        entries_view(final(dst)@) == entries_view(old(dst)@) + entries_view(src@),
{
    let ghost start = entries_view(dst@);
    let mut k: usize = 0;
    while k < src.len()
        invariant
            k <= src.len(),
            entries_view(dst@) == start + entries_view(src@.subrange(0, k as int)),
        decreases src.len() - k,
    {
        let ghost before = dst@;
        dst.push((src[k].0.clone(), clone_json(&src[k].1)));
        proof {
            assert(entries_view(dst@) =~= entries_view(before).push(
                (src@[k as int].0@, json_view(src@[k as int].1)),
            ));
            assert(entries_view(src@.subrange(0, k + 1)) =~= entries_view(
                src@.subrange(0, k as int),
            ).push((src@[k as int].0@, json_view(src@[k as int].1))));
        }
        k = k + 1;
    }
    assert(src@.subrange(0, src.len() as int) =~= src@);
}

} // verus!

verus! {

/// Where the last entry for `k` of `a + b` stands: in `b` when `b` has
/// one, else where it stands in `a`.
pub proof fn lemma_last_key_index_concat(
    a: Seq<(Seq<char>, JsonView)>,
    b: Seq<(Seq<char>, JsonView)>,
    k: Seq<char>,
)
    ensures
        last_key_index(a + b, k) == (if last_key_index(b, k) >= 0 {
            a.len() + last_key_index(b, k)
        } else {
            last_key_index(a, k)
        }),
    decreases b.len(),
{
    if b.len() == 0 {
        assert(a + b =~= a);
    } else {
        assert((a + b).drop_last() =~= a + b.drop_last());
        assert((a + b).last() == b.last());
        lemma_last_key_index_concat(a, b.drop_last(), k);
    }
}

/// The value held for `k` by the entries `a + b`: that of `b` when `b`
/// holds `k`, else that of `a`.
pub proof fn lemma_entry_value_concat(
    a: Seq<(Seq<char>, JsonView)>,
    b: Seq<(Seq<char>, JsonView)>,
    k: Seq<char>,
)
    ensures
        entry_value(a + b, k) == (if entry_value(b, k) is Some {
            entry_value(b, k)
        } else {
            entry_value(a, k)
        }),
{
    lemma_last_key_index_concat(a, b, k);
    lemma_last_key_index_range(b, k);
    lemma_last_key_index_range(a, k);
    let ib = last_key_index(b, k);
    if ib >= 0 {
        assert((a + b)[a.len() + ib] == b[ib]);
    } else {
        let ia = last_key_index(a, k);
        if ia >= 0 {
            assert((a + b)[ia] == a[ia]);
        }
    }
}

} // verus!

verus! {

/// An object whose entries all have other keys holds nothing for `k`.
pub proof fn lemma_key_absent(s: Seq<(Seq<char>, JsonView)>, k: Seq<char>)
    requires
        forall|j: int| 0 <= j < s.len() ==> #[trigger] s[j].0 != k,
    ensures
        last_key_index(s, k) == -1,
        entry_value(s, k) is None,
{
    lemma_last_key_index_prefix(s, k, 0);
    assert(s.subrange(0, 0) =~= Seq::<(Seq<char>, JsonView)>::empty());
}

} // verus!
