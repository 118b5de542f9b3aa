//! JSON values as the relay and the app server exchange them, with the
//! compact serialisation that the relay signs and measures.
//!
//! An object keeps its members in a vector.  Objects that come from a parser
//! hold their keys in ascending byte order without repeats; `insert` keeps that
//! order, so the bytes written for such an object are those of a sorted map.
use vstd::prelude::*;
use vstd::utf8::encode_utf8;
use crate::text::{str_eq};

verus! {

broadcast use vstd::string::group_string_axioms;

/// A JSON number: a non-negative integer, a negative integer, or any other
/// number kept as the decimal text that represents it.
pub enum JsonNumber {
    PosInt(u64),
    NegInt(i64),
    Decimal(String),
}

/// The mathematical view of a JSON number.
pub enum NumberV {
    PosInt(u64),
    NegInt(i64),
    Decimal(Seq<char>),
}

/// The mathematical view of a JSON value.
pub enum JsonV {
    Null,
    Bool(bool),
    Number(NumberV),
    Str(Seq<char>),
    Arr(Seq<JsonV>),
    Obj(Seq<(Seq<char>, JsonV)>),
}

/// A JSON value.
pub enum Json {
    Null,
    Bool(bool),
    Number(JsonNumber),
    String(String),
    Array(Vec<Json>),
    Object(Vec<(String, Json)>),
}

impl View for JsonNumber {
    type V = NumberV;

    open spec fn view(&self) -> NumberV {
        match self {
            JsonNumber::PosInt(n) => NumberV::PosInt(*n),
            JsonNumber::NegInt(n) => NumberV::NegInt(*n),
            JsonNumber::Decimal(t) => NumberV::Decimal(t@),
        }
    }
}

impl Json {
    pub open spec fn view_of(self) -> JsonV
        decreases self,
    {
        match self {
            Json::Null => JsonV::Null,
            Json::Bool(b) => JsonV::Bool(b),
            Json::Number(n) => JsonV::Number(n@),
            Json::String(s) => JsonV::Str(s@),
            Json::Array(items) => JsonV::Arr(
                Seq::new(
                    items@.len(),
                    |i: int|
                        {
                            if 0 <= i < items@.len() {
                                proof {
                                    assert(decreases_to!(self => items@[i]));
                                }
                                items@[i].view_of()
                            } else {
                                JsonV::Null
                            }
                        },
                ),
            ),
            Json::Object(entries) => JsonV::Obj(
                Seq::new(
                    entries@.len(),
                    |i: int|
                        {
                            if 0 <= i < entries@.len() {
                                proof {
                                    assert(decreases_to!(self => entries@[i].1));
                                }
                                (entries@[i].0@, entries@[i].1.view_of())
                            } else {
                                (Seq::empty(), JsonV::Null)
                            }
                        },
                ),
            ),
        }
    }
}

impl View for Json {
    type V = JsonV;

    open spec fn view(&self) -> JsonV {
        self.view_of()
    }
}

/// The view of the members of an object.
pub open spec fn entries_view(e: Seq<(String, Json)>) -> Seq<(Seq<char>, JsonV)> {
    Seq::new(e.len(), |i: int| (e[i].0@, e[i].1@))
}

/// The view of the items of an array.
pub open spec fn items_view(e: Seq<Json>) -> Seq<JsonV> {
    Seq::new(e.len(), |i: int| e[i]@)
}

pub proof fn lemma_object_view(e: Vec<(String, Json)>)
    ensures
        Json::Object(e)@ == JsonV::Obj(entries_view(e@)),
{
    assert(Json::Object(e)@->Obj_0 =~= entries_view(e@));
}

pub proof fn lemma_array_view(e: Vec<Json>)
    ensures
        Json::Array(e)@ == JsonV::Arr(items_view(e@)),
{
    assert(Json::Array(e)@->Arr_0 =~= items_view(e@));
}

// ---------------------------------------------------------------------------
// Reading values
// ---------------------------------------------------------------------------

/// The value of the first member named `key`.
pub open spec fn lookup(entries: Seq<(Seq<char>, JsonV)>, key: Seq<char>) -> Option<JsonV>
    decreases entries.len(),
{
    if entries.len() == 0 {
        None
    } else if entries[0].0 == key {
        Some(entries[0].1)
    } else {
        lookup(entries.drop_first(), key)
    }
}

/// The index of the first member named `key`.
pub open spec fn key_index(entries: Seq<(Seq<char>, JsonV)>, key: Seq<char>) -> Option<nat>
    decreases entries.len(),
{
    if entries.len() == 0 {
        None
    } else if entries[0].0 == key {
        Some(0)
    } else {
        match key_index(entries.drop_first(), key) {
            Some(i) => Some(i + 1),
            None => None,
        }
    }
}

impl JsonV {
    /// `Value::get` with a string key: the member of an object, and nothing
    /// for any other value.
    pub open spec fn get(self, key: Seq<char>) -> Option<JsonV> {
        match self {
            JsonV::Obj(entries) => lookup(entries, key),
            _ => None,
        }
    }

    pub open spec fn as_str(self) -> Option<Seq<char>> {
        match self {
            JsonV::Str(s) => Some(s),
            _ => None,
        }
    }

    /// `Value::as_u64`: the value of a non-negative integer.
    pub open spec fn as_u64(self) -> Option<u64> {
        match self {
            JsonV::Number(NumberV::PosInt(n)) => Some(n),
            _ => None,
        }
    }

    /// A string member, as `get(key).and_then(Value::as_str)` reads it.
    pub open spec fn str_field(self, key: Seq<char>) -> Option<Seq<char>> {
        match self.get(key) {
            Some(v) => v.as_str(),
            None => None,
        }
    }

    pub open spec fn is_object(self) -> bool {
        self is Obj
    }
}

pub proof fn lemma_lookup_key_index(entries: Seq<(Seq<char>, JsonV)>, key: Seq<char>)
    ensures
        match key_index(entries, key) {
            Some(i) => i < entries.len() && entries[i as int].0 == key && lookup(entries, key)
                == Some(entries[i as int].1) && forall|j: int|
                0 <= j < i ==> entries[j].0 != key,
            None => lookup(entries, key) is None && forall|j: int|
                0 <= j < entries.len() ==> entries[j].0 != key,
        },
    decreases entries.len(),
{
    if entries.len() > 0 && entries[0].0 != key {
        lemma_lookup_key_index(entries.drop_first(), key);
        match key_index(entries.drop_first(), key) {
            Some(i) => {
                assert forall|j: int| 0 <= j < i + 1 implies entries[j].0 != key by {
                    if j > 0 {
                        assert(entries[j] == entries.drop_first()[j - 1]);
                    }
                }
            },
            None => {
                assert forall|j: int| 0 <= j < entries.len() implies entries[j].0 != key by {
                    if j > 0 {
                        assert(entries[j] == entries.drop_first()[j - 1]);
                    }
                }
            },
        }
    }
}

/// The index of the first member named `key`.
pub fn find_key(entries: &Vec<(String, Json)>, key: &str) -> (r: Option<usize>)
    ensures
        match r {
            Some(i) => key_index(entries_view(entries@), key@) == Some(i as nat),
            None => key_index(entries_view(entries@), key@) is None,
        },
        r matches Some(i) ==> i < entries@.len(),
{
    let ghost ev = entries_view(entries@);
    let mut i: usize = 0;
    proof {
        lemma_lookup_key_index(ev, key@);
    }
    while i < entries.len()
        invariant
            i <= entries@.len(),
            ev == entries_view(entries@),
            forall|j: int| 0 <= j < i ==> ev[j].0 != key@,
            match key_index(ev, key@) {
                Some(k) => k < ev.len() && ev[k as int].0 == key@ && forall|j: int|
                    0 <= j < k ==> ev[j].0 != key@,
                None => forall|j: int| 0 <= j < ev.len() ==> ev[j].0 != key@,
            },
        decreases entries@.len() - i,
    {
        if str_eq(entries[i].0.as_str(), key) {
            assert(ev[i as int].0 == key@);
            return Some(i);
        }
        i += 1;
    }
    None
}

impl Json {
    /// `Value::get` with a string key.
    pub fn get(&self, key: &str) -> (r: Option<&Json>)
        ensures
            match r {
                Some(v) => self@.get(key@) == Some(v@),
                None => self@.get(key@) is None,
            },
    {
        match self {
            Json::Object(entries) => {
                proof {
                    lemma_object_view(*entries);
                    lemma_lookup_key_index(entries_view(entries@), key@);
                }
                match find_key(entries, key) {
                    Some(i) => {
                        assert(entries_view(entries@)[i as int] == (
                            entries@[i as int].0@,
                            entries@[i as int].1@,
                        ));
                        Some(&entries[i].1)
                    },
                    None => None,
                }
            },
            _ => None,
        }
    }

    pub fn as_str(&self) -> (r: Option<&str>)
        ensures
            match r {
                Some(s) => self@.as_str() == Some(s@),
                None => self@.as_str() is None,
            },
    {
        match self {
            Json::String(s) => Some(s.as_str()),
            _ => None,
        }
    }

    pub fn as_u64(&self) -> (r: Option<u64>)
        ensures
            r == self@.as_u64(),
    {
        match self {
            Json::Number(JsonNumber::PosInt(n)) => Some(*n),
            _ => None,
        }
    }

    /// `get(key).and_then(Value::as_str)`.
    pub fn str_field(&self, key: &str) -> (r: Option<&str>)
        ensures
            match r {
                Some(s) => self@.str_field(key@) == Some(s@),
                None => self@.str_field(key@) is None,
            },
    {
        match self.get(key) {
            Some(v) => v.as_str(),
            None => None,
        }
    }

    pub fn is_object(&self) -> (r: bool)
        ensures
            r == self@.is_object(),
    {
        match self {
            Json::Object(_) => true,
            _ => false,
        }
    }

    pub fn is_string_or_number(&self) -> (r: bool)
        ensures
            r == (self@ is Str || self@ is Number),
    {
        match self {
            Json::String(_) => true,
            Json::Number(_) => true,
            _ => false,
        }
    }

    /// A JSON string holding `s`.
    pub fn string(s: &str) -> (r: Json)
        ensures
            r@ == JsonV::Str(s@),
    {
        Json::String(s.to_owned())
    }

    /// A JSON number holding `n`.
    pub fn unsigned(n: u64) -> (r: Json)
        ensures
            r@ == JsonV::Number(NumberV::PosInt(n)),
    {
        Json::Number(JsonNumber::PosInt(n))
    }

    /// A copy of this value.
    pub fn duplicate(&self) -> (r: Json)
        ensures
            r@ == self@,
        decreases self,
    {
        match self {
            Json::Null => Json::Null,
            Json::Bool(b) => Json::Bool(*b),
            Json::Number(JsonNumber::PosInt(n)) => Json::Number(JsonNumber::PosInt(*n)),
            Json::Number(JsonNumber::NegInt(n)) => Json::Number(JsonNumber::NegInt(*n)),
            Json::Number(JsonNumber::Decimal(t)) => Json::Number(JsonNumber::Decimal(t.clone())),
            Json::String(s) => Json::String(s.clone()),
            Json::Array(items) => {
                let mut out: Vec<Json> = Vec::new();
                let mut i: usize = 0;
                assert(forall|k: int| 0 <= k < items@.len() ==> decreases_to!(self => #[trigger] items@[k]));
                while i < items.len()
                    invariant
                        i <= items@.len(),
                        out@.len() == i,
                        forall|k: int| 0 <= k < i ==> (#[trigger] out@[k])@ == items@[k]@,
                        forall|k: int| 0 <= k < items@.len() ==> decreases_to!(self => #[trigger] items@[k]),
                    decreases items@.len() - i,
                {
                    let item = items[i].duplicate();
                    out.push(item);
                    i += 1;
                }
                proof {
                    lemma_array_view(*items);
                    lemma_array_view(out);
                    assert(items_view(out@) =~= items_view(items@));
                }
                Json::Array(out)
            },
            Json::Object(entries) => {
                let mut out: Vec<(String, Json)> = Vec::new();
                let mut i: usize = 0;
                assert(forall|k: int| 0 <= k < entries@.len() ==> decreases_to!(self => (#[trigger] entries@[k]).1));
                while i < entries.len()
                    invariant
                        i <= entries@.len(),
                        out@.len() == i,
                        forall|k: int|
                            0 <= k < i ==> (#[trigger] out@[k]).0@ == entries@[k].0@ && out@[k].1@
                                == entries@[k].1@,
                        forall|k: int| 0 <= k < entries@.len() ==> decreases_to!(self => (#[trigger] entries@[k]).1),
                    decreases entries@.len() - i,
                {
                    let key = entries[i].0.clone();
                    let value = entries[i].1.duplicate();
                    out.push((key, value));
                    i += 1;
                }
                proof {
                    lemma_object_view(*entries);
                    lemma_object_view(out);
                    assert(entries_view(out@) =~= entries_view(entries@));
                }
                Json::Object(out)
            },
        }
    }
}

/// A copy of the members of an object.
pub fn duplicate_entries(entries: &Vec<(String, Json)>) -> (r: Vec<(String, Json)>)
    ensures
        entries_view(r@) == entries_view(entries@),
{
    let mut out: Vec<(String, Json)> = Vec::new();
    let mut i: usize = 0;
    while i < entries.len()
        invariant
            i <= entries@.len(),
            out@.len() == i,
            forall|k: int|
                0 <= k < i ==> (#[trigger] out@[k]).0@ == entries@[k].0@ && out@[k].1@
                    == entries@[k].1@,
        decreases entries@.len() - i,
    {
        let key = entries[i].0.clone();
        let value = entries[i].1.duplicate();
        out.push((key, value));
        i += 1;
    }
    assert(entries_view(out@) =~= entries_view(entries@));
    out
}

// ---------------------------------------------------------------------------
// Equality
// ---------------------------------------------------------------------------

/// `==` on JSON values.
pub fn json_eq(a: &Json, b: &Json) -> (r: bool)
    ensures
        r == (a@ == b@),
    decreases a,
{
    match (a, b) {
        (Json::Null, Json::Null) => true,
        (Json::Bool(x), Json::Bool(y)) => *x == *y,
        (Json::Number(x), Json::Number(y)) => match (x, y) {
            (JsonNumber::PosInt(p), JsonNumber::PosInt(q)) => *p == *q,
            (JsonNumber::NegInt(p), JsonNumber::NegInt(q)) => *p == *q,
            (JsonNumber::Decimal(p), JsonNumber::Decimal(q)) => str_eq(p.as_str(), q.as_str()),
            _ => false,
        },
        (Json::String(x), Json::String(y)) => str_eq(x.as_str(), y.as_str()),
        (Json::Array(x), Json::Array(y)) => {
            proof {
                lemma_array_view(*x);
                lemma_array_view(*y);
            }
            if x.len() != y.len() {
                assert(items_view(x@).len() != items_view(y@).len());
                return false;
            }
            let mut i: usize = 0;
            assert(forall|k: int| 0 <= k < x@.len() ==> decreases_to!(a => #[trigger] x@[k]));
            while i < x.len()
                invariant
                    i <= x@.len() == y@.len(),
                    forall|k: int| 0 <= k < i ==> (#[trigger] x@[k])@ == y@[k]@,
                    forall|k: int| 0 <= k < x@.len() ==> decreases_to!(a => #[trigger] x@[k]),
                    a@ == JsonV::Arr(items_view(x@)),
                    b@ == JsonV::Arr(items_view(y@)),
                decreases x@.len() - i,
            {
                if !json_eq(&x[i], &y[i]) {
                    assert(items_view(x@)[i as int] != items_view(y@)[i as int]);
                    return false;
                }
                i += 1;
            }
            assert(items_view(x@) =~= items_view(y@));
            true
        },
        (Json::Object(x), Json::Object(y)) => {
            proof {
                lemma_object_view(*x);
                lemma_object_view(*y);
            }
            if x.len() != y.len() {
                assert(entries_view(x@).len() != entries_view(y@).len());
                return false;
            }
            let mut i: usize = 0;
            assert(forall|k: int| 0 <= k < x@.len() ==> decreases_to!(a => (#[trigger] x@[k]).1));
            while i < x.len()
                invariant
                    i <= x@.len() == y@.len(),
                    forall|k: int|
                        0 <= k < i ==> (#[trigger] x@[k]).0@ == y@[k].0@ && x@[k].1@ == y@[k].1@,
                    forall|k: int| 0 <= k < x@.len() ==> decreases_to!(a => (#[trigger] x@[k]).1),
                    a@ == JsonV::Obj(entries_view(x@)),
                    b@ == JsonV::Obj(entries_view(y@)),
                decreases x@.len() - i,
            {
                if !str_eq(x[i].0.as_str(), y[i].0.as_str()) {
                    assert(entries_view(x@)[i as int] != entries_view(y@)[i as int]);
                    return false;
                }
                if !json_eq(&x[i].1, &y[i].1) {
                    assert(entries_view(x@)[i as int] != entries_view(y@)[i as int]);
                    return false;
                }
                i += 1;
            }
            assert(entries_view(x@) =~= entries_view(y@));
            true
        },
        _ => false,
    }
}

// ---------------------------------------------------------------------------
// Changing objects
// ---------------------------------------------------------------------------

/// Lexicographic order on byte strings, as `str`'s `Ord` compares them.
pub open spec fn bytes_lt(a: Seq<u8>, b: Seq<u8>) -> bool
    decreases a.len(),
{
    if a.len() == 0 {
        b.len() > 0
    } else if b.len() == 0 {
        false
    } else if a[0] != b[0] {
        a[0] < b[0]
    } else {
        bytes_lt(a.drop_first(), b.drop_first())
    }
}

/// Key order of a map with string keys.
pub open spec fn key_lt(a: Seq<char>, b: Seq<char>) -> bool {
    bytes_lt(encode_utf8(a), encode_utf8(b))
}

/// Where `BTreeMap::insert` puts a new key: before the first member whose key
/// is greater.
pub open spec fn insert_position(entries: Seq<(Seq<char>, JsonV)>, key: Seq<char>) -> nat
    decreases entries.len(),
{
    if entries.len() == 0 {
        0
    } else if key_lt(key, entries[0].0) {
        0
    } else {
        1 + insert_position(entries.drop_first(), key)
    }
}

/// `Map::insert`: replaces the value of an existing key in place, or adds the
/// key before the first greater one.
pub open spec fn insert_entry(
    entries: Seq<(Seq<char>, JsonV)>,
    key: Seq<char>,
    value: JsonV,
) -> Seq<(Seq<char>, JsonV)> {
    match key_index(entries, key) {
        Some(i) => entries.update(i as int, (key, value)),
        None => entries.insert(insert_position(entries, key) as int, (key, value)),
    }
}

/// `Map::remove`: drops the member named `key`, if there is one.
pub open spec fn remove_entry(entries: Seq<(Seq<char>, JsonV)>, key: Seq<char>) -> Seq<
    (Seq<char>, JsonV),
> {
    match key_index(entries, key) {
        Some(i) => entries.remove(i as int),
        None => entries,
    }
}

/// The member at `j` is the first named `key`, so `lookup` finds it.
pub proof fn lemma_lookup_at(entries: Seq<(Seq<char>, JsonV)>, key: Seq<char>, j: int)
    requires
        0 <= j < entries.len(),
        entries[j].0 == key,
        forall|m: int| 0 <= m < j ==> entries[m].0 != key,
    ensures
        lookup(entries, key) == Some(entries[j].1),
    decreases j,
{
    if j > 0 {
        assert(entries[0].0 != key);
        lemma_lookup_at(entries.drop_first(), key, j - 1);
    }
}

/// No member is named `key`, so `lookup` finds nothing.
pub proof fn lemma_lookup_none(entries: Seq<(Seq<char>, JsonV)>, key: Seq<char>)
    requires
        forall|m: int| 0 <= m < entries.len() ==> entries[m].0 != key,
    ensures
        lookup(entries, key) is None,
    decreases entries.len(),
{
    if entries.len() > 0 {
        assert(entries[0].0 != key);
        lemma_lookup_none(entries.drop_first(), key);
    }
}

pub proof fn lemma_insert_position_bound(entries: Seq<(Seq<char>, JsonV)>, key: Seq<char>)
    ensures
        insert_position(entries, key) <= entries.len(),
    decreases entries.len(),
{
    if entries.len() > 0 && !key_lt(key, entries[0].0) {
        lemma_insert_position_bound(entries.drop_first(), key);
    }
}

/// After `insert_entry`, `key` reads the inserted value and every other name
/// reads what it read before.
pub proof fn lemma_lookup_insert(
    entries: Seq<(Seq<char>, JsonV)>,
    key: Seq<char>,
    value: JsonV,
    other: Seq<char>,
)
    ensures
        lookup(insert_entry(entries, key, value), key) == Some(value),
        other != key ==> lookup(insert_entry(entries, key, value), other) == lookup(entries, other),
{
    let r = insert_entry(entries, key, value);
    lemma_lookup_key_index(entries, key);
    lemma_lookup_key_index(entries, other);
    match key_index(entries, key) {
        Some(i) => {
            lemma_lookup_at(r, key, i as int);
            if other != key {
                match key_index(entries, other) {
                    Some(j) => {
                        assert(r[j as int] == entries[j as int]);
                        lemma_lookup_at(r, other, j as int);
                    },
                    None => {
                        assert forall|m: int| 0 <= m < r.len() implies r[m].0 != other by {
                            if m != i {
                                assert(r[m] == entries[m]);
                            }
                        }
                        lemma_lookup_none(r, other);
                    },
                }
            }
        },
        None => {
            let p = insert_position(entries, key) as int;
            lemma_insert_position_bound(entries, key);
            assert forall|m: int| 0 <= m < p implies r[m].0 != key by {
                assert(r[m] == entries[m]);
            }
            lemma_lookup_at(r, key, p);
            if other != key {
                match key_index(entries, other) {
                    Some(j) => {
                        if j < p {
                            assert(r[j as int] == entries[j as int]);
                            lemma_lookup_at(r, other, j as int);
                        } else {
                            assert(r[j + 1int] == entries[j as int]);
                            assert forall|m: int| 0 <= m < j + 1int implies r[m].0 != other by {
                                if m < p {
                                    assert(r[m] == entries[m]);
                                } else if m > p {
                                    assert(r[m] == entries[m - 1]);
                                }
                            }
                            lemma_lookup_at(r, other, j + 1int);
                        }
                    },
                    None => {
                        assert forall|m: int| 0 <= m < r.len() implies r[m].0 != other by {
                            if m < p {
                                assert(r[m] == entries[m]);
                            } else if m > p {
                                assert(r[m] == entries[m - 1]);
                            }
                        }
                        lemma_lookup_none(r, other);
                    },
                }
            }
        },
    }
}

/// After `remove_entry`, every other name reads what it read before.
pub proof fn lemma_lookup_remove(entries: Seq<(Seq<char>, JsonV)>, key: Seq<char>, other: Seq<char>)
    requires
        other != key,
    ensures
        lookup(remove_entry(entries, key), other) == lookup(entries, other),
{
    let r = remove_entry(entries, key);
    lemma_lookup_key_index(entries, key);
    lemma_lookup_key_index(entries, other);
    match key_index(entries, key) {
        Some(i) => {
            match key_index(entries, other) {
                Some(j) => {
                    if j < i {
                        assert(r[j as int] == entries[j as int]);
                        lemma_lookup_at(r, other, j as int);
                    } else {
                        assert(r[j - 1int] == entries[j as int]);
                        assert forall|m: int| 0 <= m < j - 1int implies r[m].0 != other by {
                            if m < i {
                                assert(r[m] == entries[m]);
                            } else {
                                assert(r[m] == entries[m + 1]);
                            }
                        }
                        lemma_lookup_at(r, other, j - 1int);
                    }
                },
                None => {
                    assert forall|m: int| 0 <= m < r.len() implies r[m].0 != other by {
                        if m < i {
                            assert(r[m] == entries[m]);
                        } else {
                            assert(r[m] == entries[m + 1]);
                        }
                    }
                    lemma_lookup_none(r, other);
                },
            }
        },
        None => {},
    }
}

fn bytes_less(a: &[u8], b: &[u8]) -> (r: bool)
    ensures
        r == bytes_lt(a@, b@),
{
    let mut i: usize = 0;
    assert(a@.skip(0) =~= a@);
    assert(b@.skip(0) =~= b@);
    while i < a.len() && i < b.len() && a[i] == b[i]
        invariant
            i <= a@.len(),
            i <= b@.len(),
            bytes_lt(a@, b@) == bytes_lt(a@.skip(i as int), b@.skip(i as int)),
        decreases a@.len() - i,
    {
        assert(a@.skip(i as int).drop_first() =~= a@.skip(i + 1));
        assert(b@.skip(i as int).drop_first() =~= b@.skip(i + 1));
        i += 1;
    }
    if i == a.len() {
        assert(a@.skip(i as int).len() == 0);
        i < b.len()
    } else if i == b.len() {
        false
    } else {
        assert(a@.skip(i as int)[0] == a@[i as int]);
        assert(b@.skip(i as int)[0] == b@[i as int]);
        a[i] < b[i]
    }
}

pub fn key_less(a: &str, b: &str) -> (r: bool)
    ensures
        r == key_lt(a@, b@),
{
    bytes_less(a.as_bytes(), b.as_bytes())
}

fn insert_index(entries: &Vec<(String, Json)>, key: &str) -> (r: usize)
    ensures
        r == insert_position(entries_view(entries@), key@),
        r <= entries@.len(),
{
    let ghost ev = entries_view(entries@);
    let mut i: usize = 0;
    assert(ev.skip(0) =~= ev);
    while i < entries.len() && !key_less(key, entries[i].0.as_str())
        invariant
            i <= entries@.len(),
            ev == entries_view(entries@),
            insert_position(ev, key@) == i + insert_position(ev.skip(i as int), key@),
        decreases entries@.len() - i,
    {
        assert(ev.skip(i as int).drop_first() =~= ev.skip(i + 1));
        i += 1;
    }
    i
}

/// `Map::insert` on the members of an object.
pub fn insert_member(entries: &mut Vec<(String, Json)>, key: String, value: Json)
    ensures
        entries_view(final(entries)@) == insert_entry(entries_view(old(entries)@), key@, value@),
{
    let ghost old_view = entries_view(entries@);
    let ghost kv = key@;
    let ghost vv = value@;
    proof {
        lemma_lookup_key_index(old_view, key@);
    }
    match find_key(entries, key.as_str()) {
        Some(i) => {
            entries.set(i, (key, value));
            assert(entries_view(entries@) =~= old_view.update(i as int, (kv, vv)));
        },
        None => {
            let p = insert_index(entries, key.as_str());
            entries.insert(p, (key, value));
            assert(entries_view(entries@) =~= old_view.insert(p as int, (kv, vv)));
        },
    }
}

/// `Map::remove` on the members of an object.
pub fn remove_member(entries: &mut Vec<(String, Json)>, key: &str)
    ensures
        entries_view(final(entries)@) == remove_entry(entries_view(old(entries)@), key@),
{
    let ghost old_view = entries_view(entries@);
    match find_key(entries, key) {
        Some(i) => {
            assert(key_index(old_view, key@) == Some(i as nat));
            entries.remove(i);
            assert(entries_view(entries@) =~= old_view.remove(i as int));
        },
        None => {},
    }
}

// ---------------------------------------------------------------------------
// Compact serialisation
// ---------------------------------------------------------------------------

pub open spec fn hex_digit(n: u8) -> u8 {
    if n < 10 {
        (48 + n) as u8
    } else {
        (87 + n) as u8
    }
}

/// How `serde_json` writes one byte of a string's UTF-8 encoding.
pub open spec fn escape_byte(b: u8) -> Seq<u8> {
    if b == 0x22 {
        seq![0x5c, 0x22]
    } else if b == 0x5c {
        seq![0x5c, 0x5c]
    } else if b == 0x08 {
        seq![0x5c, 0x62]
    } else if b == 0x0c {
        seq![0x5c, 0x66]
    } else if b == 0x0a {
        seq![0x5c, 0x6e]
    } else if b == 0x0d {
        seq![0x5c, 0x72]
    } else if b == 0x09 {
        seq![0x5c, 0x74]
    } else if b < 0x20 {
        seq![0x5c, 0x75, 0x30, 0x30, hex_digit(b / 16), hex_digit(b % 16)]
    } else {
        seq![b]
    }
}

pub open spec fn escape_bytes(s: Seq<u8>) -> Seq<u8>
    decreases s.len(),
{
    if s.len() == 0 {
        Seq::empty()
    } else {
        escape_bytes(s.drop_last()) + escape_byte(s.last())
    }
}

/// A JSON string literal holding `s`.
pub open spec fn encode_str(s: Seq<char>) -> Seq<u8> {
    seq![0x22u8] + escape_bytes(encode_utf8(s)) + seq![0x22u8]
}

/// The ASCII decimal digits of `n`.
pub open spec fn decimal_bytes(n: nat) -> Seq<u8>
    decreases n,
{
    if n < 10 {
        seq![(48 + n) as u8]
    } else {
        decimal_bytes(n / 10).push((48 + n % 10) as u8)
    }
}

pub open spec fn encode_number(n: NumberV) -> Seq<u8> {
    match n {
        NumberV::PosInt(v) => decimal_bytes(v as nat),
        NumberV::NegInt(v) => if v < 0 {
            seq![0x2du8] + decimal_bytes((-v) as nat)
        } else {
            decimal_bytes(v as nat)
        },
        NumberV::Decimal(t) => encode_utf8(t),
    }
}

/// `serde_json::to_vec`: the compact text of a JSON value.
pub open spec fn encode(j: JsonV) -> Seq<u8>
    decreases j,
{
    match j {
        JsonV::Null => seq![0x6eu8, 0x75, 0x6c, 0x6c],
        JsonV::Bool(b) => if b {
            seq![0x74u8, 0x72, 0x75, 0x65]
        } else {
            seq![0x66u8, 0x61, 0x6c, 0x73, 0x65]
        },
        JsonV::Number(n) => encode_number(n),
        JsonV::Str(s) => encode_str(s),
        JsonV::Arr(items) => seq![0x5bu8] + encode_items(items) + seq![0x5du8],
        JsonV::Obj(entries) => seq![0x7bu8] + encode_entries(entries) + seq![0x7du8],
    }
}

/// The items of an array separated by commas.
pub open spec fn encode_items(items: Seq<JsonV>) -> Seq<u8>
    decreases items,
{
    if items.len() == 0 {
        Seq::empty()
    } else if items.len() == 1 {
        encode(items[0])
    } else {
        encode_items(items.drop_last()) + seq![0x2cu8] + encode(items.last())
    }
}

/// The members of an object separated by commas.
pub open spec fn encode_entries(entries: Seq<(Seq<char>, JsonV)>) -> Seq<u8>
    decreases entries,
{
    if entries.len() == 0 {
        Seq::empty()
    } else if entries.len() == 1 {
        proof {
            assert(decreases_to!(entries => entries[0]));
        }
        encode_str(entries[0].0) + seq![0x3au8] + encode(entries[0].1)
    } else {
        proof {
            assert(decreases_to!(entries => entries.last()));
        }
        encode_entries(entries.drop_last()) + seq![0x2cu8] + encode_str(entries.last().0) + seq![
            0x3au8,
        ] + encode(entries.last().1)
    }
}

fn hex_digit_exec(n: u8) -> (r: u8)
    requires
        n < 16,
    ensures
        r == hex_digit(n),
{
    if n < 10 {
        48 + n
    } else {
        87 + n
    }
}

fn push_escaped_byte(out: &mut Vec<u8>, b: u8)
    ensures
        final(out)@ == old(out)@ + escape_byte(b),
{
    let ghost start = out@;
    if b == 0x22 {
        out.push(0x5c);
        out.push(0x22);
    } else if b == 0x5c {
        out.push(0x5c);
        out.push(0x5c);
    } else if b == 0x08 {
        out.push(0x5c);
        out.push(0x62);
    } else if b == 0x0c {
        out.push(0x5c);
        out.push(0x66);
    } else if b == 0x0a {
        out.push(0x5c);
        out.push(0x6e);
    } else if b == 0x0d {
        out.push(0x5c);
        out.push(0x72);
    } else if b == 0x09 {
        out.push(0x5c);
        out.push(0x74);
    } else if b < 0x20 {
        out.push(0x5c);
        out.push(0x75);
        out.push(0x30);
        out.push(0x30);
        out.push(hex_digit_exec(b / 16));
        out.push(hex_digit_exec(b % 16));
    } else {
        out.push(b);
    }
    assert(out@ =~= start + escape_byte(b));
}

/// Appends the JSON string literal of `s`.
pub fn write_str(out: &mut Vec<u8>, s: &str)
    ensures
        final(out)@ == old(out)@ + encode_str(s@),
{
    let ghost start = out@;
    let bytes = s.as_bytes();
    out.push(0x22);
    let mut i: usize = 0;
    while i < bytes.len()
        invariant
            i <= bytes@.len(),
            bytes@ == encode_utf8(s@),
            out@ == start + seq![0x22u8] + escape_bytes(bytes@.take(i as int)),
        decreases bytes@.len() - i,
    {
        assert(bytes@.take(i + 1).drop_last() =~= bytes@.take(i as int));
        push_escaped_byte(out, bytes[i]);
        i += 1;
        assert(out@ =~= start + seq![0x22u8] + escape_bytes(bytes@.take(i as int)));
    }
    assert(bytes@.take(i as int) =~= bytes@);
    out.push(0x22);
    assert(out@ =~= start + encode_str(s@));
}

/// Appends the decimal digits of `n`.
pub fn write_decimal(out: &mut Vec<u8>, n: u64)
    ensures
        final(out)@ == old(out)@ + decimal_bytes(n as nat),
    decreases n,
{
    if n >= 10 {
        write_decimal(out, n / 10);
    }
    out.push((48 + n % 10) as u8);
    assert(final(out)@ =~= old(out)@ + decimal_bytes(n as nat));
}

fn write_number(out: &mut Vec<u8>, n: &JsonNumber)
    ensures
        final(out)@ == old(out)@ + encode_number(n@),
{
    let ghost start = out@;
    match n {
        JsonNumber::PosInt(v) => write_decimal(out, *v),
        JsonNumber::NegInt(v) => {
            if *v < 0 {
                out.push(0x2d);
                let magnitude: u64 = ((-(*v + 1)) as u64) + 1;
                write_decimal(out, magnitude);
                assert(out@ =~= start + (seq![0x2du8] + decimal_bytes(magnitude as nat)));
            } else {
                write_decimal(out, *v as u64);
            }
        },
        JsonNumber::Decimal(t) => {
            let bytes = t.as_str().as_bytes();
            let mut i: usize = 0;
            while i < bytes.len()
                invariant
                    i <= bytes@.len(),
                    out@ == start + bytes@.take(i as int),
                decreases bytes@.len() - i,
            {
                out.push(bytes[i]);
                assert(bytes@.take(i + 1) =~= bytes@.take(i as int).push(bytes@[i as int]));
                i += 1;
            }
            assert(bytes@.take(i as int) =~= bytes@);
        },
    }
}

/// Appends the compact JSON text of `j`.
pub fn write_json(out: &mut Vec<u8>, j: &Json)
    ensures
        final(out)@ == old(out)@ + encode(j@),
    decreases j,
{
    let ghost start = out@;
    match j {
        Json::Null => {
            out.push(0x6e);
            out.push(0x75);
            out.push(0x6c);
            out.push(0x6c);
            assert(out@ =~= start + encode(j@));
        },
        Json::Bool(b) => {
            if *b {
                out.push(0x74);
                out.push(0x72);
                out.push(0x75);
                out.push(0x65);
            } else {
                out.push(0x66);
                out.push(0x61);
                out.push(0x6c);
                out.push(0x73);
                out.push(0x65);
            }
            assert(out@ =~= start + encode(j@));
        },
        Json::Number(n) => write_number(out, n),
        Json::String(s) => write_str(out, s.as_str()),
        Json::Array(items) => {
            proof {
                lemma_array_view(*items);
            }
            let ghost iv = items_view(items@);
            out.push(0x5b);
            let mut i: usize = 0;
            assert(forall|k: int| 0 <= k < items@.len() ==> decreases_to!(j => #[trigger] items@[k]));
            while i < items.len()
                invariant
                    i <= items@.len(),
                    iv == items_view(items@),
                    out@ == start + seq![0x5bu8] + encode_items(iv.take(i as int)),
                    forall|k: int| 0 <= k < items@.len() ==> decreases_to!(j => #[trigger] items@[k]),
                decreases items@.len() - i,
            {
                assert(iv.take(i + 1).drop_last() =~= iv.take(i as int));
                if i > 0 {
                    out.push(0x2c);
                }
                write_json(out, &items[i]);
                i += 1;
                assert(out@ =~= start + seq![0x5bu8] + encode_items(iv.take(i as int)));
            }
            assert(iv.take(i as int) =~= iv);
            out.push(0x5d);
            assert(out@ =~= start + encode(j@));
        },
        Json::Object(entries) => {
            proof {
                lemma_object_view(*entries);
            }
            let ghost ev = entries_view(entries@);
            out.push(0x7b);
            let mut i: usize = 0;
            assert(forall|k: int| 0 <= k < entries@.len() ==> decreases_to!(j => (#[trigger] entries@[k]).1));
            while i < entries.len()
                invariant
                    i <= entries@.len(),
                    ev == entries_view(entries@),
                    out@ == start + seq![0x7bu8] + encode_entries(ev.take(i as int)),
                    forall|k: int| 0 <= k < entries@.len() ==> decreases_to!(j => (#[trigger] entries@[k]).1),
                decreases entries@.len() - i,
            {
                assert(ev.take(i + 1).drop_last() =~= ev.take(i as int));
                if i > 0 {
                    out.push(0x2c);
                }
                write_str(out, entries[i].0.as_str());
                out.push(0x3a);
                write_json(out, &entries[i].1);
                i += 1;
                assert(out@ =~= start + seq![0x7bu8] + encode_entries(ev.take(i as int)));
            }
            assert(ev.take(i as int) =~= ev);
            out.push(0x7d);
            assert(out@ =~= start + encode(j@));
        },
    }
}

/// `serde_json::to_vec` on a value.
pub fn to_bytes(j: &Json) -> (r: Vec<u8>)
    ensures
        r@ == encode(j@),
{
    let mut out: Vec<u8> = Vec::new();
    write_json(&mut out, j);
    assert(out@ =~= encode(j@));
    out
}

} // verus!
