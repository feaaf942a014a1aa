use vstd::prelude::*;

use crate::strmap::StrMap;

verus! {

/// A JSON number, held as JSON holds it: a non-negative integer, a negative
/// integer, or any other number written out in its decimal text.
///
/// Integers compare by their value, whichever variant holds them. A `Float`
/// holds the text that serde_json writes for the number (its shortest form
/// that reads back as the same `f64`), so that two of them compare as numbers
/// when they compare as text.
#[derive(Clone, Debug)]
pub enum JsonNumber {
    PosInt(u64),
    NegInt(i64),
    Float(String),
}

/// A JSON value.
///
/// An object is a map from keys to values: a key occurs in it once, and the
/// order of its members carries no meaning.
#[derive(Debug)]
pub enum JsonValue {
    Null,
    Bool(bool),
    Number(JsonNumber),
    Str(String),
    Array(Vec<JsonValue>),
    Object(StrMap<JsonValue>),
}

/// A JSON value as mathematics sees it: a string is its characters, an array
/// the sequence of its elements, an object the map from its keys to its values.
pub enum JsonModel {
    Null,
    Bool(bool),
    Int(int),
    Float(Seq<char>),
    Str(Seq<char>),
    Array(Seq<JsonModel>),
    Object(Map<Seq<char>, JsonModel>),
}

/// The number that `n` stands for: an integer by its value, any other
/// number by its text.
pub open spec fn number_model(n: JsonNumber) -> JsonModel {
    match n {
        JsonNumber::PosInt(v) => JsonModel::Int(v as int),
        JsonNumber::NegInt(v) => JsonModel::Int(v as int),
        JsonNumber::Float(t) => JsonModel::Float(t@),
    }
}

impl JsonValue {
    /// The value that this JSON value stands for.
    pub open spec fn model(self) -> JsonModel
        decreases self,
    {
        match self {
            JsonValue::Null => JsonModel::Null,
            JsonValue::Bool(b) => JsonModel::Bool(b),
            JsonValue::Number(n) => number_model(n),
            JsonValue::Str(t) => JsonModel::Str(t@),
            JsonValue::Array(a) => JsonModel::Array(
                Seq::new(
                    a@.len(),
                    |i: int|
                        if 0 <= i < a@.len() {
                            proof {
                                assert(decreases_to!(a => a@));
                            }
                            a@[i].model()
                        } else {
                            JsonModel::Null
                        },
                ),
            ),
            JsonValue::Object(m) => JsonModel::Object(
                Map::new(
                    |k: Seq<char>| m@.contains_key(k),
                    |k: Seq<char>|
                        if m@.contains_key(k) {
                            proof {
                                m.lemma_value_decreases(k);
                            }
                            m@[k].model()
                        } else {
                            JsonModel::Null
                        },
                ),
            ),
        }
    }
}

/// The members of `v` when it is an object; no member otherwise.
pub open spec fn members(v: JsonValue) -> Map<Seq<char>, JsonValue> {
    match v {
        JsonValue::Object(m) => m@,
        _ => Map::empty(),
    }
}

/// The member `key` of `v`, when `v` is an object that has it.
pub open spec fn field(v: JsonValue, key: Seq<char>) -> Option<JsonValue> {
    if v is Object && members(v).contains_key(key) {
        Some(members(v)[key])
    } else {
        None
    }
}

/// `v` is the JSON string whose characters are `s`.
pub open spec fn is_text(v: JsonValue, s: Seq<char>) -> bool {
    v matches JsonValue::Str(t) && t@ == s
}

/// `v` is a JSON object or `null`: a value on which a member can be set.
pub open spec fn is_object_or_null(v: JsonValue) -> bool {
    v is Object || v is Null
}

impl JsonValue {
    /// A copy of this value, member by member.
    #[verifier::loop_isolation(false)]
    pub fn deep_copy(&self) -> (r: JsonValue)
        ensures
            r.model() == self.model(),
        decreases self,
    {
        match self {
            JsonValue::Null => JsonValue::Null,
            JsonValue::Bool(b) => JsonValue::Bool(*b),
            JsonValue::Number(JsonNumber::PosInt(n)) => JsonValue::Number(JsonNumber::PosInt(*n)),
            JsonValue::Number(JsonNumber::NegInt(n)) => JsonValue::Number(JsonNumber::NegInt(*n)),
            JsonValue::Number(JsonNumber::Float(t)) => JsonValue::Number(JsonNumber::Float(t.clone())),
            JsonValue::Str(t) => JsonValue::Str(t.clone()),
            JsonValue::Array(a) => {
                let mut out: Vec<JsonValue> = Vec::new();
                let n = a.len();
                let mut i: usize = 0;
                while i < n
                    invariant
                        n == a@.len(),
                        i <= n,
                        out@.len() == i,
                        forall|j: int| 0 <= j < i ==> (#[trigger] out@[j]).model() == a@[j].model(),
                    decreases n - i,
                {
                    proof {
                        assert(decreases_to!(*self => self->Array_0));
                        assert(decreases_to!(*a => a@));
                        assert(decreases_to!(a@ => a@[i as int]));
                    }
                    out.push(a[i].deep_copy());
                    i = i + 1;
                }
                let r = JsonValue::Array(out);
                proof {
                    assert(r->Array_0@ == out@);
                    let ms = r.model()->Array_0;
                    let mt = self.model()->Array_0;
                    assert forall|j: int| 0 <= j < ms.len() implies ms[j] == mt[j] by {
                        assert(out@[j].model() == a@[j].model());
                    }
                    assert(ms =~= mt);
                    assert(r.model() == self.model());
                }
                r
            },
            JsonValue::Object(m) => {
                let es = m.entries();
                let mut out: StrMap<JsonValue> = StrMap::new();
                let n = es.len();
                let mut i: usize = 0;
                while i < n
                    invariant
                        n == es@.len(),
                        es@ == m.spec_entries(),
                        i <= n,
                        forall|j: int| 0 <= j < es@.len() ==> m@.contains_key(#[trigger] es@[j].0@)
                            && m@[es@[j].0@] == es@[j].1,
                        forall|k: Seq<char>| #[trigger] out@.contains_key(k)
                            <==> exists|j: int| 0 <= j < i && #[trigger] es@[j].0@ == k,
                        forall|k: Seq<char>| #[trigger] out@.contains_key(k) ==> m@.contains_key(k)
                            && out@[k].model() == m@[k].model(),
                    decreases n - i,
                {
                    proof {
                        m.lemma_entries_decrease(i as int);
                        assert(decreases_to!(*self => self->Object_0));
                    }
                    let v = es[i].1.deep_copy();
                    let key = es[i].0.clone();
                    let ghost before = out@;
                    out.insert(key, v);
                    proof {
                        let i1 = i + 1;
                        assert forall|k: Seq<char>| #[trigger] out@.contains_key(k)
                            <==> exists|j: int| 0 <= j < i1 && #[trigger] es@[j].0@ == k by {
                            if k == es@[i as int].0@ {
                                assert(es@[i as int].0@ == k);
                            } else if before.contains_key(k) {
                                let j = choose|j: int| 0 <= j < i && #[trigger] es@[j].0@ == k;
                                assert(es@[j].0@ == k);
                            } else if exists|j: int| 0 <= j < i1 && #[trigger] es@[j].0@ == k {
                                let j = choose|j: int| 0 <= j < i1 && #[trigger] es@[j].0@ == k;
                                assert(j != i);
                                assert(es@[j].0@ == k);
                            }
                        }
                    }
                    i = i + 1;
                }
                proof {
                    assert forall|k: Seq<char>| #[trigger] m@.contains_key(k) implies out@.contains_key(k) by {
                        let j = choose|j: int| 0 <= j < es@.len() && #[trigger] es@[j].0@ == k;
                        assert(es@[j].0@ == k);
                    }
                }
                let r = JsonValue::Object(out);
                proof {
                    let ms = r.model()->Object_0;
                    let mt = self.model()->Object_0;
                    assert(ms.dom() =~= mt.dom());
                    assert forall|k: Seq<char>| #[trigger] ms.contains_key(k) implies ms[k] == mt[k] by {
                        assert(out@.contains_key(k));
                    }
                    assert(ms =~= mt);
                    assert(r.model() == self.model());
                }
                r
            },
        }
    }

    /// The member `key` of this value, when it is an object that has it.
    pub fn get(&self, key: &str) -> (r: Option<&JsonValue>)
        ensures
            r is Some <==> field(*self, key@) is Some,
            r matches Some(v) ==> field(*self, key@) == Some(*v),
    {
        match self {
            JsonValue::Object(m) => m.get(key),
            _ => None,
        }
    }

    /// Returns whether this value is `null`.
    pub fn is_null(&self) -> (b: bool)
        ensures
            b == (*self is Null),
    {
        match self {
            JsonValue::Null => true,
            _ => false,
        }
    }

    /// An object with no member.
    pub fn empty_object() -> (v: JsonValue)
        ensures
            v is Object,
            members(v) == Map::<Seq<char>, JsonValue>::empty(),
    {
        JsonValue::Object(StrMap::new())
    }

    /// The JSON string whose characters are those of `s`.
    pub fn from_text(s: &str) -> (v: JsonValue)
        ensures
            is_text(v, s@),
    {
        JsonValue::Str(s.to_owned())
    }

    /// Sets the member `key` to `value`; a `null` becomes an object first.
    pub fn set_field(&mut self, key: String, value: JsonValue)
        requires
            is_object_or_null(*old(self)),
        ensures
            *final(self) is Object,
            members(*final(self)) == members(*old(self)).insert(key@, value),
    {
        match self {
            JsonValue::Object(m) => {
                m.insert(key, value);
            },
            _ => {
                let mut m: StrMap<JsonValue> = StrMap::new();
                m.insert(key, value);
                *self = JsonValue::Object(m);
            },
        }
    }

    /// Takes the member `key` out of this value, when it is an object that has it.
    pub fn remove_field(&mut self, key: &str) -> (r: Option<JsonValue>)
        ensures
            r == field(*old(self), key@),
            (*old(self) is Object) ==> (*final(self) is Object && members(*final(self)) == members(*old(self)).remove(key@)),
            !(*old(self) is Object) ==> *final(self) == *old(self),
    {
        match self {
            JsonValue::Object(m) => m.remove(key),
            _ => None,
        }
    }
}

/// Reading a member after setting it: `get` of the key that `set_field` set
/// gives the value set, and every other member reads as it did before.
pub proof fn law_field_after_set(before: JsonValue, after: JsonValue, key: Seq<char>, value: JsonValue, other: Seq<char>)
    requires
        is_object_or_null(before),
        after is Object,
        members(after) == members(before).insert(key, value),
    ensures
        field(after, key) == Some(value),
        other != key ==> field(after, other) == field(before, other),
{
}

/// Whether the numbers `a` and `b` are the same JSON number.
fn number_eq(a: &JsonNumber, b: &JsonNumber) -> (r: bool)
    ensures
        r == (number_model(*a) == number_model(*b)),
{
    match (a, b) {
        (JsonNumber::PosInt(x), JsonNumber::PosInt(y)) => *x == *y,
        (JsonNumber::NegInt(x), JsonNumber::NegInt(y)) => *x == *y,
        (JsonNumber::PosInt(x), JsonNumber::NegInt(y)) => *y >= 0 && *x == *y as u64,
        (JsonNumber::NegInt(x), JsonNumber::PosInt(y)) => *x >= 0 && *x as u64 == *y,
        (JsonNumber::Float(x), JsonNumber::Float(y)) => *x == *y,
        _ => false,
    }
}

impl PartialEq for JsonNumber {
    fn eq(&self, other: &Self) -> (r: bool) {
        number_eq(self, other)
    }
}

impl vstd::std_specs::cmp::PartialEqSpecImpl for JsonNumber {
    open spec fn obeys_eq_spec() -> bool {
        true
    }

    open spec fn eq_spec(&self, other: &Self) -> bool {
        number_model(*self) == number_model(*other)
    }
}

/// Whether `a` and `b` are the same JSON value: arrays element by element,
/// objects as maps from keys to values, whatever order their members are
/// kept in.
#[verifier::loop_isolation(false)]
pub fn json_eq(a: &JsonValue, b: &JsonValue) -> (r: bool)
    ensures
        r == (a.model() == b.model()),
    decreases a,
{
    match (a, b) {
        (JsonValue::Null, JsonValue::Null) => true,
        (JsonValue::Bool(x), JsonValue::Bool(y)) => *x == *y,
        (JsonValue::Number(x), JsonValue::Number(y)) => number_eq(x, y),
        (JsonValue::Str(x), JsonValue::Str(y)) => *x == *y,
        (JsonValue::Array(x), JsonValue::Array(y)) => {
            if x.len() != y.len() {
                proof {
                    assert(a.model()->Array_0.len() != b.model()->Array_0.len());
                }
                return false;
            }
            let n = x.len();
            let mut i: usize = 0;
            while i < n
                invariant
                    n == x@.len(),
                    n == y@.len(),
                    i <= n,
                    forall|j: int| 0 <= j < i ==> (#[trigger] x@[j]).model() == y@[j].model(),
                decreases n - i,
            {
                proof {
                    assert(decreases_to!(*a => a->Array_0));
                    assert(decreases_to!(*x => x@));
                    assert(decreases_to!(x@ => x@[i as int]));
                }
                if !json_eq(&x[i], &y[i]) {
                    proof {
                        assert(a.model()->Array_0[i as int] != b.model()->Array_0[i as int]);
                    }
                    return false;
                }
                i = i + 1;
            }
            proof {
                let ms = a.model()->Array_0;
                let mt = b.model()->Array_0;
                assert forall|j: int| 0 <= j < ms.len() implies ms[j] == mt[j] by {
                    assert(x@[j].model() == y@[j].model());
                }
                assert(ms =~= mt);
            }
            true
        },
        (JsonValue::Object(x), JsonValue::Object(y)) => {
            let nx = x.len();
            let ny = y.len();
            if nx != ny {
                proof {
                    assert(a.model()->Object_0.dom() =~= x@.dom());
                    assert(b.model()->Object_0.dom() =~= y@.dom());
                }
                return false;
            }
            let es = x.entries();
            let mut i: usize = 0;
            while i < nx
                invariant
                    nx == es@.len(),
                    es@ == x.spec_entries(),
                    i <= nx,
                    forall|j: int| 0 <= j < es@.len() ==> x@.contains_key(#[trigger] es@[j].0@)
                        && x@[es@[j].0@] == es@[j].1,
                    forall|j: int| 0 <= j < i ==> y@.contains_key(#[trigger] es@[j].0@)
                        && x@[es@[j].0@].model() == y@[es@[j].0@].model(),
                decreases nx - i,
            {
                proof {
                    x.lemma_entries_decrease(i as int);
                    assert(decreases_to!(*a => a->Object_0));
                }
                let ghost k = es@[i as int].0@;
                match y.get(es[i].0.as_str()) {
                    Some(w) => {
                        if !json_eq(&es[i].1, w) {
                            proof {
                                assert(a.model()->Object_0.contains_key(k));
                                assert(a.model()->Object_0[k] != b.model()->Object_0[k]);
                            }
                            return false;
                        }
                    },
                    None => {
                        proof {
                            assert(a.model()->Object_0.contains_key(k));
                            assert(!b.model()->Object_0.contains_key(k));
                        }
                        return false;
                    },
                }
                i = i + 1;
            }
            proof {
                assert forall|k: Seq<char>| #[trigger] x@.contains_key(k) implies y@.contains_key(k)
                    && x@[k].model() == y@[k].model() by {
                    let j = choose|j: int| 0 <= j < es@.len() && #[trigger] es@[j].0@ == k;
                    assert(es@[j].0@ == k);
                }
                vstd::set_lib::lemma_subset_equality(x@.dom(), y@.dom());
                let ms = a.model()->Object_0;
                let mt = b.model()->Object_0;
                assert(ms.dom() =~= mt.dom());
                assert forall|k: Seq<char>| #[trigger] ms.contains_key(k) implies ms[k] == mt[k] by {
                    assert(x@.contains_key(k));
                }
                assert(ms =~= mt);
            }
            true
        },
        _ => false,
    }
}

impl PartialEq for JsonValue {
    fn eq(&self, other: &Self) -> (r: bool) {
        json_eq(self, other)
    }
}

impl vstd::std_specs::cmp::PartialEqSpecImpl for JsonValue {
    open spec fn obeys_eq_spec() -> bool {
        true
    }

    open spec fn eq_spec(&self, other: &Self) -> bool {
        self.model() == other.model()
    }
}

impl Clone for JsonValue {
    fn clone(&self) -> (r: Self)
        ensures
            r.model() == self.model(),
    {
        self.deep_copy()
    }
}

} // verus!
