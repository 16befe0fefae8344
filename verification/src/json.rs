//! JSON values and their mathematical model.
//!
//! [`Json`] is the executable value; [`JsonV`] is what it denotes. Objects keep
//! the order in which their members were added.

use vstd::prelude::*;

use crate::text::str_eq;

verus! {

/// A JSON number: an integer in the range of the 64-bit types, or any other
/// number by its shortest decimal text.
#[derive(Debug, PartialEq)]
pub enum JsonNumber {
    PosInt(u64),
    NegInt(i64),
    Float(String),
}

/// A JSON value.
#[derive(Debug, PartialEq)]
pub enum Json {
    Null,
    Bool(bool),
    Number(JsonNumber),
    Str(String),
    Array(Vec<Json>),
    Object(Vec<(String, Json)>),
}

/// What a JSON number denotes.
#[verifier::ext_equal]
pub enum NumberV {
    PosInt(nat),
    NegInt(int),
    Float(Seq<char>),
}

/// What a JSON value denotes.
#[verifier::ext_equal]
pub enum JsonV {
    Null,
    Bool(bool),
    Number(NumberV),
    Str(Seq<char>),
    Array(Seq<JsonV>),
    Object(Seq<(Seq<char>, JsonV)>),
}

impl View for JsonNumber {
    type V = NumberV;

    open spec fn view(&self) -> NumberV {
        match self {
            JsonNumber::PosInt(n) => NumberV::PosInt(*n as nat),
            JsonNumber::NegInt(n) => NumberV::NegInt(*n as int),
            JsonNumber::Float(t) => NumberV::Float(t@),
        }
    }
}

/// What `j` denotes.
pub open spec fn model(j: Json) -> JsonV
    decreases j,
{
    match j {
        Json::Null => JsonV::Null,
        Json::Bool(b) => JsonV::Bool(b),
        Json::Number(n) => JsonV::Number(n@),
        Json::Str(s) => JsonV::Str(s@),
        Json::Array(v) => JsonV::Array(
            Seq::new(
                v@.len(),
                |i: int|
                    if 0 <= i < v@.len() {
                        model(v@[i])
                    } else {
                        JsonV::Null
                    },
            ),
        ),
        Json::Object(v) => JsonV::Object(
            Seq::new(
                v@.len(),
                |i: int|
                    if 0 <= i < v@.len() {
                        (v@[i].0@, model(v@[i].1))
                    } else {
                        (Seq::empty(), JsonV::Null)
                    },
            ),
        ),
    }
}

impl View for Json {
    type V = JsonV;

    open spec fn view(&self) -> JsonV {
        model(*self)
    }
}

/// What a list of values denotes.
pub open spec fn items(v: Seq<Json>) -> Seq<JsonV> {
    Seq::new(v.len(), |i: int| v[i]@)
}

/// What a list of members denotes.
pub open spec fn fields(v: Seq<(String, Json)>) -> Seq<(Seq<char>, JsonV)> {
    Seq::new(v.len(), |i: int| (v[i].0@, v[i].1@))
}

/// What an optional value denotes.
pub open spec fn opt(j: Option<Json>) -> Option<JsonV> {
    match j {
        Some(x) => Some(x@),
        None => None,
    }
}

/// What an optional borrowed value denotes.
pub open spec fn opt_ref(j: Option<&Json>) -> Option<JsonV> {
    match j {
        Some(x) => Some(x@),
        None => None,
    }
}

/// The position of the member named `key`, or the length when there is none.
pub open spec fn position(m: Seq<(Seq<char>, JsonV)>, key: Seq<char>) -> nat
    decreases m.len(),
{
    if m.len() == 0 {
        0
    } else if m[0].0 == key {
        0
    } else {
        1 + position(m.skip(1), key)
    }
}

/// The value of the member named `key`.
pub open spec fn member(m: Seq<(Seq<char>, JsonV)>, key: Seq<char>) -> Option<JsonV>
    decreases m.len(),
{
    if m.len() == 0 {
        None
    } else if m[0].0 == key {
        Some(m[0].1)
    } else {
        member(m.skip(1), key)
    }
}

/// The members with `key` set to `value`: in place when the key is there, at
/// the end otherwise.
pub open spec fn inserted(
    m: Seq<(Seq<char>, JsonV)>,
    key: Seq<char>,
    value: JsonV,
) -> Seq<(Seq<char>, JsonV)> {
    let p = position(m, key) as int;
    if p < m.len() {
        m.update(p, (key, value))
    } else {
        m.push((key, value))
    }
}

/// The members without `key`; the last member takes its place.
pub open spec fn removed(m: Seq<(Seq<char>, JsonV)>, key: Seq<char>) -> Seq<(Seq<char>, JsonV)> {
    let p = position(m, key) as int;
    if p < m.len() {
        if p == m.len() - 1 {
            m.drop_last()
        } else {
            m.update(p, m.last()).drop_last()
        }
    } else {
        m
    }
}

/// No two members have the same name.
pub open spec fn distinct(m: Seq<(Seq<char>, JsonV)>) -> bool {
    forall|i: int, j: int| 0 <= i < j < m.len() ==> (#[trigger] m[i]).0 != (#[trigger] m[j]).0
}

impl JsonV {
    /// The member named `key` of an object; nothing for any other value.
    pub open spec fn get(self, key: Seq<char>) -> Option<JsonV> {
        match self {
            JsonV::Object(m) => member(m, key),
            _ => None,
        }
    }

    /// The characters of a string; nothing for any other value.
    pub open spec fn text(self) -> Option<Seq<char>> {
        match self {
            JsonV::Str(s) => Some(s),
            _ => None,
        }
    }

    /// The string that stands under `key`.
    pub open spec fn text_at(self, key: Seq<char>) -> Option<Seq<char>> {
        match self.get(key) {
            Some(JsonV::Str(s)) => Some(s),
            _ => None,
        }
    }
}

/// `position` points at the first member with that name.
pub proof fn position_found(m: Seq<(Seq<char>, JsonV)>, key: Seq<char>)
    ensures
        position(m, key) <= m.len(),
        position(m, key) < m.len() ==> m[position(m, key) as int].0 == key && member(m, key)
            == Some(m[position(m, key) as int].1),
        position(m, key) == m.len() ==> member(m, key) is None,
        forall|i: int| 0 <= i < position(m, key) ==> (#[trigger] m[i]).0 != key,
    decreases m.len(),
{
    if m.len() > 0 && m[0].0 != key {
        position_found(m.skip(1), key);
        assert forall|i: int| 0 <= i < position(m, key) implies (#[trigger] m[i]).0 != key by {
            if i > 0 {
                assert(m.skip(1)[i - 1] == m[i]);
            }
        }
    }
}

/// Which member carries a name is fixed by the first occurrence of that name.
pub proof fn member_at(m: Seq<(Seq<char>, JsonV)>, key: Seq<char>, p: int)
    requires
        0 <= p < m.len(),
        m[p].0 == key,
        forall|i: int| 0 <= i < p ==> (#[trigger] m[i]).0 != key,
    ensures
        member(m, key) == Some(m[p].1),
        position(m, key) == p,
{
    position_found(m, key);
}

/// A name that no member has finds nothing.
pub proof fn member_absent(m: Seq<(Seq<char>, JsonV)>, key: Seq<char>)
    requires
        forall|i: int| 0 <= i < m.len() ==> (#[trigger] m[i]).0 != key,
    ensures
        member(m, key) is None,
        position(m, key) == m.len(),
{
    position_found(m, key);
}

/// After an insertion the key holds the new value, every other key holds what
/// it held before, and distinct names stay distinct.
pub proof fn insert_then_get(
    m: Seq<(Seq<char>, JsonV)>,
    key: Seq<char>,
    value: JsonV,
    other: Seq<char>,
)
    ensures
        member(inserted(m, key, value), key) == Some(value),
        other != key ==> member(inserted(m, key, value), other) == member(m, other),
        distinct(m) ==> distinct(inserted(m, key, value)),
{
    position_found(m, key);
    let r = inserted(m, key, value);
    let p = position(m, key) as int;
    assert(forall|i: int| 0 <= i < p ==> r[i] == m[i]);
    member_at(r, key, p);
    if other != key {
        position_found(m, other);
        let q = position(m, other) as int;
        if q < m.len() {
            assert(r[q] == m[q]);
            assert forall|i: int| 0 <= i < q implies (#[trigger] r[i]).0 != other by {
                if i == p {
                } else {
                    assert(r[i] == m[i]);
                }
            }
            member_at(r, other, q);
        } else {
            assert forall|i: int| 0 <= i < r.len() implies (#[trigger] r[i]).0 != other by {
                if i < m.len() && i != p {
                    assert(r[i] == m[i]);
                }
            }
            member_absent(r, other);
        }
    }
}

/// After a removal from an object with distinct names the key is gone, every
/// other key holds what it held before, and names stay distinct.
pub proof fn remove_then_get(m: Seq<(Seq<char>, JsonV)>, key: Seq<char>, other: Seq<char>)
    requires
        distinct(m),
    ensures
        member(removed(m, key), key) is None,
        other != key ==> member(removed(m, key), other) == member(m, other),
        distinct(removed(m, key)),
{
    position_found(m, key);
    let p = position(m, key) as int;
    let r = removed(m, key);
    if p < m.len() {
        let n = m.len() - 1;
        assert(r.len() == n);
        assert forall|i: int| 0 <= i < n implies #[trigger] r[i] == (if i == p {
            m[n]
        } else {
            m[i]
        }) by {}
        member_absent(r, key);
        if other != key {
            position_found(m, other);
            let q = position(m, other) as int;
            if q < m.len() {
                let q2 = if q == n {
                    p
                } else {
                    q
                };
                assert(r[q2] == m[q]);
                assert forall|i: int| 0 <= i < q2 implies (#[trigger] r[i]).0 != other by {
                    if i == p {
                        assert(m[n].0 != m[q].0 || q == n);
                    } else {
                        assert(m[i].0 != m[q].0);
                    }
                }
                member_at(r, other, q2);
            } else {
                member_absent(r, other);
            }
        }
    } else {
        assert forall|i: int| 0 <= i < m.len() implies (#[trigger] m[i]).0 != key by {}
        member_absent(m, key);
    }
}

/// Appends a member to a list of members.
pub fn put(m: &mut Vec<(String, Json)>, key: &str, value: Json)
    ensures
        fields(final(m)@) == fields(old(m)@).push((key@, value@)),
{
    m.push((key.to_owned(), value));
    assert(fields(m@) =~= fields(old(m)@).push((key@, value@)));
}

/// A JSON string with the characters of `s`.
pub fn string(s: &str) -> (r: Json)
    ensures
        r@ == JsonV::Str(s@),
{
    Json::Str(s.to_owned())
}

/// A JSON object with the given members.
pub fn object(m: Vec<(String, Json)>) -> (r: Json)
    ensures
        r@ == JsonV::Object(fields(m@)),
{
    let r = Json::Object(m);
    assert(r@->Object_0 =~= fields(m@));
    r
}

/// A JSON array with the given items.
pub fn array(v: Vec<Json>) -> (r: Json)
    ensures
        r@ == JsonV::Array(items(v@)),
{
    let r = Json::Array(v);
    assert(r@->Array_0 =~= items(v@));
    r
}

/// What an array or an object denotes, member by member.
pub proof fn model_of(j: Json)
    ensures
        j matches Json::Array(v) ==> j@ == JsonV::Array(items(v@)),
        j matches Json::Object(m) ==> j@ == JsonV::Object(fields(m@)),
{
    match j {
        Json::Array(v) => {
            assert(j@->Array_0 =~= items(v@));
        },
        Json::Object(m) => {
            assert(j@->Object_0 =~= fields(m@));
        },
        _ => {},
    }
}

/// A number that counts.
pub fn unsigned(n: u64) -> (r: Json)
    ensures
        r@ == JsonV::Number(NumberV::PosInt(n as nat)),
{
    Json::Number(JsonNumber::PosInt(n))
}

/// What a signed integer is as a JSON number.
pub open spec fn integer_v(n: int) -> JsonV {
    if n >= 0 {
        JsonV::Number(NumberV::PosInt(n as nat))
    } else {
        JsonV::Number(NumberV::NegInt(n))
    }
}

/// A signed integer.
pub fn integer(n: i64) -> (r: Json)
    ensures
        r@ == integer_v(n as int),
{
    if n >= 0 {
        Json::Number(JsonNumber::PosInt(n as u64))
    } else {
        Json::Number(JsonNumber::NegInt(n))
    }
}

/// The index of the first member named `key`, if there is one.
pub fn find(m: &Vec<(String, Json)>, key: &str) -> (r: Option<usize>)
    ensures
        match r {
            Some(i) => i < m.len() && i == position(fields(m@), key@) && m[i as int].0@ == key@
                && member(fields(m@), key@) == Some(m[i as int].1@),
            None => member(fields(m@), key@) is None && position(fields(m@), key@) == m.len(),
        },
{
    let mut i: usize = 0;
    while i < m.len()
        invariant
            i <= m.len(),
            forall|k: int| 0 <= k < i ==> (#[trigger] fields(m@)[k]).0 != key@,
        decreases m.len() - i,
    {
        if str_eq(m[i].0.as_str(), key) {
            proof {
                member_at(fields(m@), key@, i as int);
            }
            return Some(i);
        }
        i += 1;
    }
    proof {
        member_absent(fields(m@), key@);
    }
    None
}

/// Sets `key` to `value`: in place when the key is there, at the end otherwise.
pub fn insert(m: &mut Vec<(String, Json)>, key: &str, value: Json)
    ensures
        fields(final(m)@) == inserted(fields(old(m)@), key@, value@),
{
    match find(m, key) {
        Some(i) => {
            m.set(i, (key.to_owned(), value));
            assert(fields(m@) =~= inserted(fields(old(m)@), key@, value@));
        },
        None => {
            put(m, key, value);
        },
    }
}

/// Removes `key`; the last member takes its place.
pub fn remove(m: &mut Vec<(String, Json)>, key: &str)
    ensures
        fields(final(m)@) == removed(fields(old(m)@), key@),
{
    match find(m, key) {
        Some(i) => {
            m.swap_remove(i);
            assert(fields(m@) =~= removed(fields(old(m)@), key@));
        },
        None => {},
    }
}

/// A copy of a list of members.
pub fn clone_fields(m: &Vec<(String, Json)>) -> (r: Vec<(String, Json)>)
    ensures
        fields(r@) == fields(m@),
    decreases m, 1nat,
{
    let mut out: Vec<(String, Json)> = Vec::new();
    let mut i: usize = 0;
    while i < m.len()
        invariant
            i <= m.len(),
            out.len() == i,
            forall|k: int| 0 <= k < i ==> (#[trigger] fields(out@)[k]) == fields(m@)[k],
        decreases m.len() - i,
    {
        let c: Json = m[i].1.copy();
        let ghost prev = out@;
        out.push((m[i].0.clone(), c));
        assert(fields(out@) =~= fields(prev).push(fields(m@)[i as int]));
        i += 1;
    }
    assert(fields(out@) =~= fields(m@));
    out
}

/// A copy of a list of values.
pub fn clone_items(v: &Vec<Json>) -> (r: Vec<Json>)
    ensures
        items(r@) == items(v@),
    decreases v, 1nat,
{
    let mut out: Vec<Json> = Vec::new();
    let mut i: usize = 0;
    while i < v.len()
        invariant
            i <= v.len(),
            out.len() == i,
            forall|k: int| 0 <= k < i ==> (#[trigger] items(out@)[k]) == items(v@)[k],
        decreases v.len() - i,
    {
        let c: Json = v[i].copy();
        let ghost prev = out@;
        out.push(c);
        assert(items(out@) =~= items(prev).push(items(v@)[i as int]));
        i += 1;
    }
    assert(items(out@) =~= items(v@));
    out
}

impl Json {
    /// A copy of the value.
    pub fn copy(&self) -> (r: Json)
        ensures
            r@ == self@,
        decreases self, 0nat,
    {
        proof {
            model_of(*self);
        }
        match self {
            Json::Null => Json::Null,
            Json::Bool(b) => Json::Bool(*b),
            Json::Number(n) => Json::Number(n.copy()),
            Json::Str(s) => Json::Str(s.clone()),
            Json::Array(v) => array(clone_items(v)),
            Json::Object(m) => object(clone_fields(m)),
        }
    }

    /// The member named `key` of an object; nothing for any other value.
    pub fn get(&self, key: &str) -> (r: Option<&Json>)
        ensures
            opt_ref(r) == self@.get(key@),
    {
        proof {
            model_of(*self);
        }
        match self {
            Json::Object(m) => match find(m, key) {
                Some(i) => Some(&m[i].1),
                None => None,
            },
            _ => None,
        }
    }

    /// The string, when the value is one.
    pub fn as_str(&self) -> (r: Option<&str>)
        ensures
            match r {
                Some(s) => self@ == JsonV::Str(s@),
                None => self@ !is Str,
            },
    {
        match self {
            Json::Str(s) => Some(s.as_str()),
            _ => None,
        }
    }

    /// The string that stands under `key`.
    pub fn get_str(&self, key: &str) -> (r: Option<&str>)
        ensures
            match r {
                Some(s) => self@.text_at(key@) == Some(s@),
                None => self@.text_at(key@) is None,
            },
    {
        match self.get(key) {
            Some(v) => v.as_str(),
            None => None,
        }
    }

    /// Whether the value is `null`.
    pub fn is_null(&self) -> (r: bool)
        ensures
            r == (self@ is Null),
    {
        matches!(self, Json::Null)
    }
}

impl JsonNumber {
    fn copy(&self) -> (r: JsonNumber)
        ensures
            r@ == self@,
    {
        match self {
            JsonNumber::PosInt(n) => JsonNumber::PosInt(*n),
            JsonNumber::NegInt(n) => JsonNumber::NegInt(*n),
            JsonNumber::Float(t) => JsonNumber::Float(t.clone()),
        }
    }
}

impl Clone for Json {
    fn clone(&self) -> (r: Self)
        ensures
            r@ == self@,
    {
        self.copy()
    }
}

/// A copy of an optional value.
pub fn clone_opt(j: &Option<Json>) -> (r: Option<Json>)
    ensures
        opt(r) == opt(*j),
{
    match j {
        Some(x) => Some(x.copy()),
        None => None,
    }
}

/// An integer is a number of its own sign.
pub proof fn integers_are_numbers(n: int)
    ensures
        n >= 0 ==> integer_v(n) == JsonV::Number(NumberV::PosInt(n as nat)),
        n < 0 ==> integer_v(n) == JsonV::Number(NumberV::NegInt(n)),
{
}

} // verus!
