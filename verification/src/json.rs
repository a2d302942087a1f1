//! A JSON document as the library reads and writes it: the values that the
//! AI service sends and receives, with the lookups that the rest of the
//! library uses.

use vstd::prelude::*;

verus! {

/// A JSON value. Numbers are kept as their text; object members keep their
/// order.
pub enum Json {
    Null,
    Bool(bool),
    Number(String),
    Str(String),
    Array(Vec<Json>),
    Object(Vec<(String, Json)>),
}

/// The value of the first member of an object with the key, if `j` is an
/// object that has one (what `Value::get` with a key gives).
pub open spec fn get_spec(j: Json, key: Seq<char>) -> Option<Json> {
    match j {
        Json::Object(ps) => {
            if exists|i: int| 0 <= i < ps@.len() && (#[trigger] ps@[i]).0@ == key {
                let i = choose|i: int| 0 <= i < ps@.len() && (#[trigger] ps@[i]).0@ == key
                    && forall|k: int| 0 <= k < i ==> (#[trigger] ps@[k]).0@ != key;
                Some(ps@[i].1)
            } else {
                None
            }
        },
        _ => None,
    }
}

/// The text of a string value.
pub open spec fn str_spec(j: Option<Json>) -> Option<Seq<char>> {
    match j {
        Some(Json::Str(s)) => Some(s@),
        _ => None,
    }
}

/// The elements of an array value.
pub open spec fn array_spec(j: Option<Json>) -> Option<Seq<Json>> {
    match j {
        Some(Json::Array(a)) => Some(a@),
        _ => None,
    }
}

proof fn lemma_first_key(ps: Seq<(String, Json)>, key: Seq<char>, i: int)
    requires
        0 <= i < ps.len(),
        ps[i].0@ == key,
        forall|k: int| 0 <= k < i ==> (#[trigger] ps[k]).0@ != key,
    ensures
        (choose|q: int| 0 <= q < ps.len() && (#[trigger] ps[q]).0@ == key
            && forall|k: int| 0 <= k < q ==> (#[trigger] ps[k]).0@ != key) == i,
{
    let q = choose|q: int| 0 <= q < ps.len() && (#[trigger] ps[q]).0@ == key
        && forall|k: int| 0 <= k < q ==> (#[trigger] ps[k]).0@ != key;
    assert(0 <= i < ps.len() && ps[i].0@ == key && forall|k: int| 0 <= k < i ==> (#[trigger] ps[k]).0@ != key);
    if q < i {
        assert(ps[q].0@ != key);
    } else if i < q {
        assert(ps[i].0@ != key);
    }
}

impl Json {
    /// The value of the first member with the key, if this is an object.
    #[verifier::loop_isolation(false)]
    pub fn get<'a>(&'a self, key: &str) -> (r: Option<&'a Json>)
        ensures
            match r {
                Some(v) => get_spec(*self, key@) == Some(*v),
                None => get_spec(*self, key@) is None,
            },
    {
        match self {
            Json::Object(ps) => {
                let k = String::from_str(key);
                let mut i: usize = 0;
                while i < ps.len()
                    invariant
                        k@ == key@,
                        i <= ps@.len(),
                        forall|q: int| 0 <= q < i ==> (#[trigger] ps@[q]).0@ != key@,
                    decreases ps@.len() - i,
                {
                    if ps[i].0 == k {
                        proof {
                            lemma_first_key(ps@, key@, i as int);
                        }
                        return Some(&ps[i].1);
                    }
                    i = i + 1;
                }
                None
            },
            _ => None,
        }
    }

    /// The text, if this is a string.
    pub fn as_str(&self) -> (r: Option<&String>)
        ensures
            match r {
                Some(s) => str_spec(Some(*self)) == Some(s@),
                None => str_spec(Some(*self)) is None,
            },
    {
        match self {
            Json::Str(s) => Some(s),
            _ => None,
        }
    }

    /// The elements, if this is an array.
    pub fn as_array(&self) -> (r: Option<&Vec<Json>>)
        ensures
            match r {
                Some(a) => array_spec(Some(*self)) == Some(a@),
                None => array_spec(Some(*self)) is None,
            },
    {
        match self {
            Json::Array(a) => Some(a),
            _ => None,
        }
    }
}

/// A string value with the text.
pub fn jstr(s: &str) -> (r: Json)
    ensures
        r matches Json::Str(t) && t@ == s@,
{
    Json::Str(String::from_str(s))
}

} // verus!
