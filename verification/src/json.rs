//! A JSON value model that the request and response logic works on.

use vstd::prelude::*;
use crate::text::{chars_of, push_all, str_eq, string_of};

verus! {

/// A JSON value. Numbers are kept as their JSON text.
pub enum JsonValue {
    Null,
    Bool(bool),
    Number(String),
    Str(String),
    Array(Vec<JsonValue>),
    Object(Vec<JsonMember>),
}

/// One member of a JSON object.
pub struct JsonMember {
    pub key: String,
    pub value: JsonValue,
}

/// The mathematical content of a JSON value.
pub enum Json {
    Null,
    Bool(bool),
    Number(Seq<char>),
    Str(Seq<char>),
    Array(Seq<Json>),
    /// The keys and the values of the members, in order.
    Object(Seq<Seq<char>>, Seq<Json>),
}

impl View for JsonValue {
    type V = Json;

    open spec fn view(&self) -> Json
        decreases self,
    {
        match self {
            JsonValue::Null => Json::Null,
            JsonValue::Bool(b) => Json::Bool(*b),
            JsonValue::Number(n) => Json::Number(n@),
            JsonValue::Str(s) => Json::Str(s@),
            JsonValue::Array(a) => Json::Array(
                Seq::new(a@.len(), |i: int| if 0 <= i < a@.len() { a@[i].view() } else { Json::Null }),
            ),
            JsonValue::Object(o) => Json::Object(
                Seq::new(o@.len(), |i: int| o@[i].key@),
                Seq::new(o@.len(), |i: int| if 0 <= i < o@.len() { o@[i].value.view() } else { Json::Null }),
            ),
        }
    }
}

/// The value stored under `key` in an object with these keys and values: the
/// value of the first member with that key.
pub open spec fn lookup(keys: Seq<Seq<char>>, values: Seq<Json>, key: Seq<char>) -> Option<Json>
    decreases keys.len(),
{
    if keys.len() == 0 || values.len() == 0 {
        None
    } else if keys[0] == key {
        Some(values[0])
    } else {
        lookup(keys.skip(1), values.skip(1), key)
    }
}

/// `Value::get(key)`: the member `key` of an object; `None` for anything else.
pub open spec fn json_get(v: Json, key: Seq<char>) -> Option<Json> {
    match v {
        Json::Object(keys, values) => lookup(keys, values, key),
        _ => None,
    }
}

/// `Value::as_str`.
pub open spec fn json_as_str(v: Json) -> Option<Seq<char>> {
    match v {
        Json::Str(s) => Some(s),
        _ => None,
    }
}

/// `Value::as_array`.
pub open spec fn json_as_array(v: Json) -> Option<Seq<Json>> {
    match v {
        Json::Array(items) => Some(items),
        _ => None,
    }
}

/// `v.get(key).and_then(|x| x.as_str())`.
pub open spec fn json_str_field(v: Json, key: Seq<char>) -> Option<Seq<char>> {
    match json_get(v, key) {
        Some(x) => json_as_str(x),
        None => None,
    }
}

pub open spec fn opt_json_view(o: Option<&JsonValue>) -> Option<Json> {
    match o {
        Some(v) => Some(v@),
        None => None,
    }
}

pub open spec fn opt_string_view(o: Option<&String>) -> Option<Seq<char>> {
    match o {
        Some(v) => Some(v@),
        None => None,
    }
}

/// `lookup` finds the member at index `i` when no earlier key is `key`.
pub proof fn lemma_lookup_at(keys: Seq<Seq<char>>, values: Seq<Json>, key: Seq<char>, i: int)
    requires
        keys.len() == values.len(),
        0 <= i < keys.len(),
        keys[i] == key,
        forall|j: int| 0 <= j < i ==> keys[j] != key,
    ensures
        lookup(keys, values, key) == Some(values[i]),
    decreases i,
{
    if i > 0 {
        lemma_lookup_at(keys.skip(1), values.skip(1), key, i - 1);
    }
}

proof fn lemma_lookup_absent(keys: Seq<Seq<char>>, values: Seq<Json>, key: Seq<char>)
    requires
        keys.len() == values.len(),
        forall|j: int| 0 <= j < keys.len() ==> keys[j] != key,
    ensures
        lookup(keys, values, key) is None,
    decreases keys.len(),
{
    if keys.len() > 0 {
        lemma_lookup_absent(keys.skip(1), values.skip(1), key);
    }
}

/// The content of an array value, item by item.
pub proof fn lemma_array_view(v: JsonValue)
    requires
        v is Array,
    ensures
        v@ is Array,
        v@->Array_0.len() == v->Array_0@.len(),
        forall|k: int| 0 <= k < v->Array_0@.len() ==> #[trigger] v@->Array_0[k] == v->Array_0@[k]@,
{
    if let JsonValue::Array(a) = v {
        assert(v@ is Array);
        assert(v@->Array_0.len() == a@.len());
        assert forall|k: int| 0 <= k < a@.len() implies #[trigger] v@->Array_0[k] == a@[k]@ by {}
    }
}

/// The content of an object value, member by member.
pub proof fn lemma_object_view(v: JsonValue)
    requires
        v is Object,
    ensures
        v@ is Object,
        v@->Object_0.len() == v->Object_0@.len(),
        v@->Object_1.len() == v->Object_0@.len(),
        forall|k: int| 0 <= k < v->Object_0@.len() ==> #[trigger] v@->Object_0[k] == v->Object_0@[k].key@,
        forall|k: int| 0 <= k < v->Object_0@.len() ==> #[trigger] v@->Object_1[k] == v->Object_0@[k].value@,
{
    if let JsonValue::Object(o) = v {
        assert(v@ is Object);
        assert(v@->Object_0.len() == o@.len());
        assert(v@->Object_1.len() == o@.len());
        assert forall|k: int| 0 <= k < o@.len() implies #[trigger] v@->Object_0[k] == o@[k].key@ by {}
        assert forall|k: int| 0 <= k < o@.len() implies #[trigger] v@->Object_1[k] == o@[k].value@ by {}
    }
}

impl JsonValue {
    /// `Value::get`: the member `key` of an object.
    pub fn get(&self, key: &str) -> (r: Option<&JsonValue>)
        ensures
            opt_json_view(r) == json_get(self@, key@),
    {
        match self {
            JsonValue::Object(entries) => {
                let mut i: usize = 0;
                while i < entries.len()
                    invariant
                        i <= entries@.len(),
                        *self == JsonValue::Object(*entries),
                        forall|j: int| 0 <= j < i ==> entries@[j].key@ != key@,
                    decreases entries.len() - i,
                {
                    if str_eq(entries[i].key.as_str(), key) {
                        proof {
                            lemma_object_view(*self);
                            let ks = self@->Object_0;
                            let vs = self@->Object_1;
                            assert forall|j: int| 0 <= j < i implies ks[j] != key@ by {
                                assert(ks[j] == entries@[j].key@);
                            }
                            assert(ks[i as int] == entries@[i as int].key@);
                            lemma_lookup_at(ks, vs, key@, i as int);
                            assert(vs[i as int] == entries@[i as int].value@);
                        }
                        return Some(&entries[i].value);
                    }
                    i = i + 1;
                }
                proof {
                    lemma_object_view(*self);
                    let ks = self@->Object_0;
                    assert forall|j: int| 0 <= j < ks.len() implies ks[j] != key@ by {
                        assert(ks[j] == entries@[j].key@);
                    }
                    lemma_lookup_absent(ks, self@->Object_1, key@);
                }
                None
            },
            _ => None,
        }
    }

    /// `Value::as_str`.
    pub fn as_str(&self) -> (r: Option<&String>)
        ensures
            opt_string_view(r) == json_as_str(self@),
    {
        match self {
            JsonValue::Str(s) => Some(s),
            _ => None,
        }
    }

    /// `Value::as_array`.
    pub fn as_array(&self) -> (r: Option<&Vec<JsonValue>>)
        ensures
            match r {
                Some(a) => json_as_array(self@) matches Some(items) && items.len() == a@.len()
                    && forall|k: int| 0 <= k < a@.len() ==> #[trigger] items[k] == a@[k]@,
                None => json_as_array(self@) is None,
            },
    {
        match self {
            JsonValue::Array(a) => {
                proof {
                    lemma_array_view(*self);
                }
                Some(a)
            },
            _ => None,
        }
    }

    /// `value.get(key).and_then(|x| x.as_str())`.
    pub fn str_field(&self, key: &str) -> (r: Option<&String>)
        ensures
            opt_string_view(r) == json_str_field(self@, key@),
    {
        match self.get(key) {
            Some(x) => x.as_str(),
            None => None,
        }
    }

    /// A deep copy.
    pub fn deep_clone(&self) -> (r: JsonValue)
        ensures
            r@ == self@,
        decreases self,
    {
        match self {
            JsonValue::Null => JsonValue::Null,
            JsonValue::Bool(b) => JsonValue::Bool(*b),
            JsonValue::Number(n) => JsonValue::Number(n.clone()),
            JsonValue::Str(s) => JsonValue::Str(s.clone()),
            JsonValue::Array(a) => {
                let mut out: Vec<JsonValue> = Vec::new();
                let mut i: usize = 0;
                while i < a.len()
                    invariant
                        i <= a@.len(),
                        out@.len() == i,
                        *self == JsonValue::Array(*a),
                        forall|k: int| 0 <= k < i ==> (#[trigger] out@[k])@ == a@[k]@,
                    decreases a.len() - i,
                {
                    proof {
                        assert(decreases_to!(*self => self->Array_0));
                        assert(decreases_to!(self->Array_0 => self->Array_0@));
                        assert(decreases_to!(self->Array_0@ => self->Array_0@[i as int]));
                    }
                    let c = a[i].deep_clone();
                    out.push(c);
                    i = i + 1;
                }
                let r = JsonValue::Array(out);
                proof {
                    lemma_array_view(r);
                    lemma_array_view(*self);
                    assert(r@->Array_0 =~= self@->Array_0);
                }
                r
            },
            JsonValue::Object(o) => {
                let mut out: Vec<JsonMember> = Vec::new();
                let mut i: usize = 0;
                while i < o.len()
                    invariant
                        i <= o@.len(),
                        out@.len() == i,
                        *self == JsonValue::Object(*o),
                        forall|k: int| 0 <= k < i ==> (#[trigger] out@[k]).key@ == o@[k].key@ && out@[k].value@ == o@[k].value@,
                    decreases o.len() - i,
                {
                    proof {
                        assert(decreases_to!(*self => self->Object_0));
                        assert(decreases_to!(self->Object_0 => self->Object_0@));
                        assert(decreases_to!(self->Object_0@ => self->Object_0@[i as int]));
                        assert(decreases_to!(self->Object_0@[i as int] => self->Object_0@[i as int].value));
                    }
                    let c = o[i].value.deep_clone();
                    out.push(JsonMember { key: o[i].key.clone(), value: c });
                    i = i + 1;
                }
                let r = JsonValue::Object(out);
                proof {
                    lemma_object_view(r);
                    lemma_object_view(*self);
                    assert(r@->Object_0 =~= self@->Object_0);
                    assert(r@->Object_1 =~= self@->Object_1);
                }
                r
            },
        }
    }
}

/// A JSON string holding `s`.
pub fn json_str(s: &str) -> (r: JsonValue)
    ensures
        r@ == Json::Str(s@),
{
    JsonValue::Str(s.to_owned())
}

/// The JSON string literal that serde_json writes for `s`, quotes included.
pub uninterp spec fn json_string_literal(s: Seq<char>) -> Seq<char>;

/// The compact JSON text of a value (no whitespace; members in their order).
pub open spec fn json_text(v: Json) -> Seq<char>
    decreases v,
{
    match v {
        Json::Null => seq!['n', 'u', 'l', 'l'],
        Json::Bool(b) => if b {
            seq!['t', 'r', 'u', 'e']
        } else {
            seq!['f', 'a', 'l', 's', 'e']
        },
        Json::Number(n) => n,
        Json::Str(s) => json_string_literal(s),
        Json::Array(items) => seq!['['] + items_text(items) + seq![']'],
        Json::Object(keys, values) => seq!['{'] + members_text(keys, values) + seq!['}'],
    }
}

/// The items of an array, separated by commas.
pub open spec fn items_text(items: Seq<Json>) -> Seq<char>
    decreases items,
{
    if items.len() == 0 {
        Seq::empty()
    } else if items.len() == 1 {
        json_text(items[0])
    } else {
        items_text(items.drop_last()) + seq![','] + json_text(items.last())
    }
}

/// The members of an object, `"key":value`, separated by commas.
pub open spec fn members_text(keys: Seq<Seq<char>>, values: Seq<Json>) -> Seq<char>
    decreases values,
{
    if values.len() == 0 || keys.len() != values.len() {
        Seq::empty()
    } else if values.len() == 1 {
        json_string_literal(keys[0]) + seq![':'] + json_text(values[0])
    } else {
        members_text(keys.drop_last(), values.drop_last()) + seq![','] + json_string_literal(keys.last())
            + seq![':'] + json_text(values.last())
    }
}

/// serde_json's `Value::String(s).to_string()`: the compact JSON text of a
/// string value. Claimed: the text equals `json_string_literal` of `s`; which
/// characters serde_json escapes, and how, is left to serde_json.
#[verifier::external_body]
fn serde_string_literal(s: &str) -> (r: String)
    ensures
        r@ == json_string_literal(s@),
{
    serde_json::Value::String(s.to_owned()).to_string()
}

/// Appends the JSON string literal of `s`.
pub fn push_quoted(s: &str, out: &mut Vec<char>)
    ensures
        final(out)@ == old(out)@ + json_string_literal(s@),
{
    let lit = serde_string_literal(s);
    let cs = chars_of(lit.as_str());
    push_all(out, &cs);
}

fn push_literal(lit: &str, out: &mut Vec<char>)
    ensures
        final(out)@ == old(out)@ + lit@,
{
    let cs = chars_of(lit);
    push_all(out, &cs);
}

/// Appends the compact JSON text of `v`.
pub fn write_json(v: &JsonValue, out: &mut Vec<char>)
    ensures
        final(out)@ == old(out)@ + json_text(v@),
    decreases v,
{
    match v {
        JsonValue::Null => {
            out.push('n');
            out.push('u');
            out.push('l');
            out.push('l');
            assert(final(out)@ =~= old(out)@ + json_text(v@));
        },
        JsonValue::Bool(b) => {
            if *b {
                out.push('t');
                out.push('r');
                out.push('u');
                out.push('e');
            } else {
                out.push('f');
                out.push('a');
                out.push('l');
                out.push('s');
                out.push('e');
            }
            assert(final(out)@ =~= old(out)@ + json_text(v@));
        },
        JsonValue::Number(n) => {
            push_literal(n.as_str(), out);
        },
        JsonValue::Str(s) => {
            push_quoted(s.as_str(), out);
        },
        JsonValue::Array(a) => {
            proof {
                lemma_array_view(*v);
            }
            let ghost items = v@->Array_0;
            out.push('[');
            let ghost start = out@;
            let mut i: usize = 0;
            while i < a.len()
                invariant
                    i <= a@.len(),
                    *v == JsonValue::Array(*a),
                    items == v@->Array_0,
                    items.len() == a@.len(),
                    forall|k: int| 0 <= k < a@.len() ==> #[trigger] items[k] == a@[k]@,
                    out@ == start + items_text(items.take(i as int)),
                decreases a.len() - i,
            {
                proof {
                    assert(decreases_to!(*v => v->Array_0));
                    assert(decreases_to!(v->Array_0 => v->Array_0@));
                    assert(decreases_to!(v->Array_0@ => v->Array_0@[i as int]));
                    assert(items.take(i + 1).drop_last() =~= items.take(i as int));
                    assert(items.take(i + 1).last() == a@[i as int]@);
                }
                if i > 0 {
                    out.push(',');
                }
                write_json(&a[i], out);
                i = i + 1;
                proof {
                    if i == 1 {
                        assert(items.take(1).len() == 1);
                    }
                    assert(out@ =~= start + items_text(items.take(i as int)));
                }
            }
            out.push(']');
            assert(items.take(a@.len() as int) =~= items);
            assert(final(out)@ =~= old(out)@ + json_text(v@));
        },
        JsonValue::Object(o) => {
            proof {
                lemma_object_view(*v);
            }
            let ghost keys = v@->Object_0;
            let ghost values = v@->Object_1;
            out.push('{');
            let ghost start = out@;
            let mut i: usize = 0;
            while i < o.len()
                invariant
                    i <= o@.len(),
                    *v == JsonValue::Object(*o),
                    keys == v@->Object_0,
                    values == v@->Object_1,
                    keys.len() == o@.len(),
                    values.len() == o@.len(),
                    forall|k: int| 0 <= k < o@.len() ==> #[trigger] keys[k] == o@[k].key@,
                    forall|k: int| 0 <= k < o@.len() ==> #[trigger] values[k] == o@[k].value@,
                    out@ == start + members_text(keys.take(i as int), values.take(i as int)),
                decreases o.len() - i,
            {
                proof {
                    assert(decreases_to!(*v => v->Object_0));
                    assert(decreases_to!(v->Object_0 => v->Object_0@));
                    assert(decreases_to!(v->Object_0@ => v->Object_0@[i as int]));
                    assert(decreases_to!(v->Object_0@[i as int] => v->Object_0@[i as int].value));
                    assert(keys.take(i + 1).drop_last() =~= keys.take(i as int));
                    assert(values.take(i + 1).drop_last() =~= values.take(i as int));
                }
                if i > 0 {
                    out.push(',');
                }
                push_quoted(o[i].key.as_str(), out);
                out.push(':');
                write_json(&o[i].value, out);
                i = i + 1;
                proof {
                    assert(out@ =~= start + members_text(keys.take(i as int), values.take(i as int)));
                }
            }
            out.push('}');
            assert(keys.take(o@.len() as int) =~= keys);
            assert(values.take(o@.len() as int) =~= values);
            assert(final(out)@ =~= old(out)@ + json_text(v@));
        },
    }
}

impl JsonValue {
    /// `Value::to_string`: the compact JSON text of the value.
    pub fn to_json_string(&self) -> (s: String)
        ensures
            s@ == json_text(self@),
    {
        let mut out: Vec<char> = Vec::new();
        write_json(self, &mut out);
        assert(out@ =~= json_text(self@));
        string_of(&out)
    }
}

/// The keys of a list of members.
pub open spec fn member_keys(ms: Seq<JsonMember>) -> Seq<Seq<char>> {
    Seq::new(ms.len(), |i: int| ms[i].key@)
}

/// The values of a list of members.
pub open spec fn member_values(ms: Seq<JsonMember>) -> Seq<Json> {
    Seq::new(ms.len(), |i: int| ms[i].value@)
}

/// A member `key: value`.
pub fn member(key: &str, value: JsonValue) -> (m: JsonMember)
    ensures
        m.key@ == key@,
        m.value@ == value@,
{
    JsonMember { key: key.to_owned(), value }
}

/// The object made of these members, in this order.
pub fn object_of(members: Vec<JsonMember>) -> (r: JsonValue)
    ensures
        r@ == Json::Object(member_keys(members@), member_values(members@)),
{
    let r = JsonValue::Object(members);
    proof {
        lemma_object_view(r);
        assert(r@->Object_0 =~= member_keys(members@));
        assert(r@->Object_1 =~= member_values(members@));
    }
    r
}

/// A JSON string, or `null` when absent.
pub open spec fn str_or_null(o: Option<Seq<char>>) -> Json {
    match o {
        Some(s) => Json::Str(s),
        None => Json::Null,
    }
}

/// A JSON string holding `s`, or `null`.
pub fn json_str_or_null(s: Option<&String>) -> (r: JsonValue)
    ensures
        r@ == str_or_null(opt_string_view(s)),
{
    match s {
        Some(x) => JsonValue::Str(x.clone()),
        None => JsonValue::Null,
    }
}

/// The text of an optional string, or a default.
pub open spec fn str_or(o: Option<Seq<char>>, default: Seq<char>) -> Seq<char> {
    match o {
        Some(s) => s,
        None => default,
    }
}

/// `opt.unwrap_or(default)` on an optional string.
pub fn string_or(o: Option<&String>, default: &str) -> (r: String)
    ensures
        r@ == str_or(opt_string_view(o), default@),
{
    match o {
        Some(x) => x.clone(),
        None => default.to_owned(),
    }
}

/// An array of one string.
pub fn json_single_str_array(s: &str) -> (r: JsonValue)
    ensures
        r@ == Json::Array(seq![Json::Str(s@)]),
{
    let mut v: Vec<JsonValue> = Vec::new();
    v.push(json_str(s));
    let r = JsonValue::Array(v);
    proof {
        lemma_array_view(r);
        assert(r@->Array_0 =~= seq![Json::Str(s@)]);
    }
    r
}

/// An empty array.
pub fn json_empty_array() -> (r: JsonValue)
    ensures
        r@ == Json::Array(Seq::empty()),
{
    let r = JsonValue::Array(Vec::new());
    proof {
        lemma_array_view(r);
        assert(r@->Array_0 =~= Seq::<Json>::empty());
    }
    r
}

} // verus!
