//! A JSON document as the search tool reads and writes it, with a
//! mathematical model (`Json`) that the contracts speak of.
use vstd::prelude::*;
use vstd::string::*;

verus! {

/// The model of a JSON number, as serde_json keeps one: a non-negative
/// integer, a negative integer, or a floating-point number held by the text
/// that serde_json prints for it.
pub enum NumberModel {
    PosInt(u64),
    NegInt(i64),
    Float(Seq<char>),
}

/// The model of a JSON value. An object is a sequence of entries; a lookup
/// finds the first entry with the key.
pub enum Json {
    Null,
    Bool(bool),
    Number(NumberModel),
    Str(Seq<char>),
    Array(Seq<Json>),
    Object(Seq<(Seq<char>, Json)>),
}

/// A JSON number.
#[derive(Debug, PartialEq, Eq)]
pub enum JsonNumber {
    PosInt(u64),
    NegInt(i64),
    /// A number with a fraction or an exponent, held by its printed text.
    Float(String),
}

/// A JSON value.
#[derive(Debug, PartialEq, Eq)]
pub enum JsonValue {
    Null,
    Bool(bool),
    Number(JsonNumber),
    String(String),
    Array(Vec<JsonValue>),
    Object(Vec<(String, JsonValue)>),
}

impl View for JsonNumber {
    type V = NumberModel;

    open spec fn view(&self) -> NumberModel {
        match self {
            JsonNumber::PosInt(n) => NumberModel::PosInt(*n),
            JsonNumber::NegInt(n) => NumberModel::NegInt(*n),
            JsonNumber::Float(t) => NumberModel::Float(t@),
        }
    }
}

/// The model of a JSON value.
pub open spec fn json_model(v: JsonValue) -> Json
    decreases v, 0nat,
{
    match v {
        JsonValue::Null => Json::Null,
        JsonValue::Bool(b) => Json::Bool(b),
        JsonValue::Number(n) => Json::Number(n@),
        JsonValue::String(s) => Json::Str(s@),
        JsonValue::Array(a) => Json::Array(json_models(a@)),
        JsonValue::Object(o) => Json::Object(entry_models(o@)),
    }
}

/// The models of a sequence of JSON values.
pub open spec fn json_models(s: Seq<JsonValue>) -> Seq<Json>
    decreases s, 1nat,
{
    if s.len() == 0 {
        Seq::empty()
    } else {
        json_models(s.drop_last()).push(json_model(s.last()))
    }
}

/// The models of a sequence of object entries.
pub open spec fn entry_models(s: Seq<(String, JsonValue)>) -> Seq<(Seq<char>, Json)>
    decreases s, 1nat,
{
    if s.len() == 0 {
        Seq::empty()
    } else {
        entry_models(s.drop_last()).push((s.last().0@, json_model(s.last().1)))
    }
}

impl View for JsonValue {
    type V = Json;

    open spec fn view(&self) -> Json {
        json_model(*self)
    }
}

} // verus!

verus! {

/// The model of a sequence of values has one element for each value.
pub proof fn lemma_json_models(s: Seq<JsonValue>)
    ensures
        json_models(s).len() == s.len(),
        forall|i: int| 0 <= i < s.len() ==> #[trigger] json_models(s)[i] == json_model(s[i]),
    decreases s.len(),
{
    if s.len() > 0 {
        lemma_json_models(s.drop_last());
    }
}

/// The model of a sequence of entries has one entry for each entry.
pub proof fn lemma_entry_models(s: Seq<(String, JsonValue)>)
    ensures
        entry_models(s).len() == s.len(),
        forall|i: int|
            0 <= i < s.len() ==> #[trigger] entry_models(s)[i] == (s[i].0@, json_model(s[i].1)),
    decreases s.len(),
{
    if s.len() > 0 {
        lemma_entry_models(s.drop_last());
    }
}

} // verus!

verus! {

/// The value of the first entry with key `k`.
pub open spec fn lookup(es: Seq<(Seq<char>, Json)>, k: Seq<char>) -> Option<Json>
    decreases es.len(),
{
    if es.len() == 0 {
        None
    } else if es[0].0 == k {
        Some(es[0].1)
    } else {
        lookup(es.drop_first(), k)
    }
}

/// What `value.get(key)` gives: the member `k` of an object, nothing for
/// other values.
pub open spec fn json_get(j: Json, k: Seq<char>) -> Option<Json> {
    match j {
        Json::Object(es) => lookup(es, k),
        _ => None,
    }
}

/// What `value.get(i)` gives: the element `i` of an array, nothing for other
/// values.
pub open spec fn json_at(j: Json, i: int) -> Option<Json> {
    match j {
        Json::Array(xs) => if 0 <= i < xs.len() {
            Some(xs[i])
        } else {
            None
        },
        _ => None,
    }
}

/// What `value.as_str()` gives.
pub open spec fn json_str(j: Json) -> Option<Seq<char>> {
    match j {
        Json::Str(s) => Some(s),
        _ => None,
    }
}

/// What `value.as_array()` gives.
pub open spec fn json_array(j: Json) -> Option<Seq<Json>> {
    match j {
        Json::Array(xs) => Some(xs),
        _ => None,
    }
}

/// What `value.as_u64()` gives: a non-negative integer.
pub open spec fn json_u64(j: Json) -> Option<u64> {
    match j {
        Json::Number(NumberModel::PosInt(n)) => Some(n),
        _ => None,
    }
}

/// The text of an optional value that is a string.
pub open spec fn opt_str(o: Option<Json>) -> Option<Seq<char>> {
    match o {
        Some(j) => json_str(j),
        None => None,
    }
}

/// The elements of an optional value that is an array.
pub open spec fn opt_array(o: Option<Json>) -> Option<Seq<Json>> {
    match o {
        Some(j) => json_array(j),
        None => None,
    }
}

/// The integer of an optional value that is a non-negative integer.
pub open spec fn opt_u64(o: Option<Json>) -> Option<u64> {
    match o {
        Some(j) => json_u64(j),
        None => None,
    }
}

/// The model of an optional reference to a value.
pub open spec fn ref_model(r: Option<&JsonValue>) -> Option<Json> {
    match r {
        Some(v) => Some(v@),
        None => None,
    }
}

/// The model of an optional text.
pub open spec fn opt_text(r: Option<&str>) -> Option<Seq<char>> {
    match r {
        Some(s) => Some(s@),
        None => None,
    }
}

impl JsonValue {
    /// The member `key` of an object; `None` for other values or a missing
    /// key. With two entries of one key, the first is found.
    pub fn get(&self, key: &str) -> (r: Option<&JsonValue>)
        ensures
            ref_model(r) == json_get(self@, key@),
    {
        match self {
            JsonValue::Object(entries) => {
                let n = entries.len();
                let ghost es = entry_models(entries@);
                proof {
                    lemma_entry_models(entries@);
                    assert(es.skip(0) =~= es);
                    assert(self@ == Json::Object(es));
                }
                let mut i: usize = 0;
                while i < n
                    invariant
                        n == entries.len(),
                        i <= n,
                        es == entry_models(entries@),
                        es.len() == n,
                        forall|k: int|
                            0 <= k < n ==> #[trigger] es[k] == (entries@[k].0@, json_model(
                                entries@[k].1,
                            )),
                        lookup(es, key@) == lookup(es.skip(i as int), key@),
                        json_get(self@, key@) == lookup(es, key@),
                    decreases n - i,
                {
                    if crate::text::str_eq(entries[i].0.as_str(), key) {
                        assert(es.skip(i as int)[0] == es[i as int]);
                        return Some(&entries[i].1);
                    }
                    assert(es.skip(i as int).drop_first() =~= es.skip(i + 1));
                    i = i + 1;
                }
                assert(es.skip(n as int) =~= Seq::<(Seq<char>, Json)>::empty());
                None
            },
            _ => None,
        }
    }

    /// The element `i` of an array; `None` for other values or an index out
    /// of range.
    pub fn get_index(&self, i: usize) -> (r: Option<&JsonValue>)
        ensures
            ref_model(r) == json_at(self@, i as int),
    {
        match self {
            JsonValue::Array(items) => {
                proof {
                    lemma_json_models(items@);
                }
                if i < items.len() {
                    Some(&items[i])
                } else {
                    None
                }
            },
            _ => None,
        }
    }

    /// The text of a string value.
    pub fn as_str(&self) -> (r: Option<&str>)
        ensures
            opt_text(r) == json_str(self@),
    {
        match self {
            JsonValue::String(s) => Some(s.as_str()),
            _ => None,
        }
    }

    /// The elements of an array value.
    pub fn as_array(&self) -> (r: Option<&Vec<JsonValue>>)
        ensures
            r matches Some(items) ==> json_array(self@) == Some(json_models(items@)),
            r is None ==> json_array(self@) is None,
    {
        match self {
            JsonValue::Array(items) => Some(items),
            _ => None,
        }
    }

    /// The integer of a non-negative integer value.
    pub fn as_u64(&self) -> (r: Option<u64>)
        ensures
            r == json_u64(self@),
    {
        match self {
            JsonValue::Number(JsonNumber::PosInt(n)) => Some(*n),
            _ => None,
        }
    }

    /// Whether the value is an object.
    pub fn is_object(&self) -> (r: bool)
        ensures
            r == (self@ is Object),
    {
        match self {
            JsonValue::Object(_) => true,
            _ => false,
        }
    }

    /// Whether the value is an array.
    pub fn is_array(&self) -> (r: bool)
        ensures
            r == (self@ is Array),
    {
        match self {
            JsonValue::Array(_) => true,
            _ => false,
        }
    }
}

} // verus!

verus! {

impl JsonNumber {
    /// A copy of the number.
    pub fn copy_number(&self) -> (r: JsonNumber)
        ensures
            r@ == self@,
    {
        match self {
            JsonNumber::PosInt(n) => JsonNumber::PosInt(*n),
            JsonNumber::NegInt(n) => JsonNumber::NegInt(*n),
            JsonNumber::Float(t) => JsonNumber::Float(t.clone()),
        }
    }
}

impl JsonValue {
    /// A deep copy of the value.
    pub fn deep_clone(&self) -> (r: JsonValue)
        ensures
            r@ == self@,
        decreases self,
    {
        match self {
            JsonValue::Null => JsonValue::Null,
            JsonValue::Bool(b) => JsonValue::Bool(*b),
            JsonValue::Number(n) => JsonValue::Number(n.copy_number()),
            JsonValue::String(s) => JsonValue::String(s.clone()),
            JsonValue::Array(items) => {
                let mut out: Vec<JsonValue> = Vec::new();
                let n = items.len();
                let mut i: usize = 0;
                while i < n
                    invariant
                        n == items.len(),
                        i <= n,
                        out.len() == i,
                        *self == JsonValue::Array(*items),
                        forall|k: int| 0 <= k < i ==> #[trigger] out@[k]@ == items@[k]@,
                    decreases n - i,
                {
                    proof {
                        lemma_element_smaller(*self, *items, i as int);
                    }
                    let c = items[i].deep_clone();
                    out.push(c);
                    i = i + 1;
                }
                proof {
                    lemma_json_models(items@);
                    lemma_json_models(out@);
                    assert forall|k: int| 0 <= k < n implies #[trigger] json_models(out@)[k]
                        == json_models(items@)[k] by {
                        assert(out@[k]@ == items@[k]@);
                    }
                    assert(json_models(out@) =~= json_models(items@));
                }
                JsonValue::Array(out)
            },
            JsonValue::Object(entries) => {
                let mut out: Vec<(String, JsonValue)> = Vec::new();
                let n = entries.len();
                let mut i: usize = 0;
                while i < n
                    invariant
                        n == entries.len(),
                        i <= n,
                        out.len() == i,
                        *self == JsonValue::Object(*entries),
                        forall|k: int|
                            0 <= k < i ==> #[trigger] out@[k].0@ == entries@[k].0@ && out@[k].1@
                                == entries@[k].1@,
                    decreases n - i,
                {
                    proof {
                        lemma_member_smaller(*self, *entries, i as int);
                    }
                    let key = entries[i].0.clone();
                    let c = entries[i].1.deep_clone();
                    out.push((key, c));
                    i = i + 1;
                }
                proof {
                    lemma_entry_models(entries@);
                    lemma_entry_models(out@);
                    assert(entry_models(out@) =~= entry_models(entries@));
                }
                JsonValue::Object(out)
            },
        }
    }
}

/// The text of a number as serde_json prints it.
pub open spec fn number_text(n: NumberModel) -> Seq<char> {
    match n {
        NumberModel::PosInt(x) => crate::text::decimal(x as nat),
        NumberModel::NegInt(x) => crate::text::signed_decimal(x as int),
        NumberModel::Float(t) => t,
    }
}

/// The compact JSON text of a value, as `Display` of a serde_json value
/// prints it: no spaces, members in the order of the object.
pub open spec fn json_text(j: Json) -> Seq<char>
    decreases j, 0nat,
{
    match j {
        Json::Null => "null"@,
        Json::Bool(b) => if b {
            "true"@
        } else {
            "false"@
        },
        Json::Number(n) => number_text(n),
        Json::Str(s) => crate::external::json_string_literal(s),
        Json::Array(xs) => "["@ + items_text(xs) + "]"@,
        Json::Object(es) => "{"@ + members_text(es) + "}"@,
    }
}

/// The texts of array elements, separated by commas.
pub open spec fn items_text(xs: Seq<Json>) -> Seq<char>
    decreases xs, 1nat,
{
    if xs.len() == 0 {
        Seq::empty()
    } else if xs.len() == 1 {
        json_text(xs[0])
    } else {
        items_text(xs.drop_last()) + ","@ + json_text(xs.last())
    }
}

/// The texts of object members (`"key":value`), separated by commas.
pub open spec fn members_text(es: Seq<(Seq<char>, Json)>) -> Seq<char>
    decreases es, 1nat,
{
    if es.len() == 0 {
        Seq::empty()
    } else if es.len() == 1 {
        member_text(es[0].0, es[0].1)
    } else {
        members_text(es.drop_last()) + ","@ + member_text(es.last().0, es.last().1)
    }
}

/// The text of one object member.
pub open spec fn member_text(k: Seq<char>, v: Json) -> Seq<char>
    decreases v, 1nat,
{
    crate::external::json_string_literal(k) + ":"@ + json_text(v)
}

/// Appends the text of a number to `out`.
fn write_number(n: &JsonNumber, out: &mut String)
    ensures
        final(out)@ == old(out)@ + number_text(n@),
{
    match n {
        JsonNumber::PosInt(x) => {
            let t = crate::text::u64_to_decimal(*x);
            out.append(t.as_str());
        },
        JsonNumber::NegInt(x) => {
            let t = crate::text::i64_to_decimal(*x);
            out.append(t.as_str());
        },
        JsonNumber::Float(t) => {
            out.append(t.as_str());
        },
    }
}

/// Appends the compact JSON text of `v` to `out`.
pub fn write_json(v: &JsonValue, out: &mut String)
    ensures
        final(out)@ == old(out)@ + json_text(v@),
    decreases v,
{
    match v {
        JsonValue::Null => out.append("null"),
        JsonValue::Bool(b) => if *b {
            out.append("true")
        } else {
            out.append("false")
        },
        JsonValue::Number(n) => write_number(n, out),
        JsonValue::String(s) => {
            let q = crate::external::quote_json_string(s.as_str());
            out.append(q.as_str());
        },
        JsonValue::Array(items) => {
            let ghost start = out@;
            let ghost ms = json_models(items@);
            proof {
                lemma_json_models(items@);
                assert(ms.take(0) =~= Seq::<Json>::empty());
            }
            out.append("[");
            let n = items.len();
            let mut i: usize = 0;
            while i < n
                invariant
                    n == items.len(),
                    i <= n,
                    ms == json_models(items@),
                    ms.len() == n,
                    forall|k: int| 0 <= k < n ==> #[trigger] ms[k] == items@[k]@,
                    out@ == start + "["@ + items_text(ms.take(i as int)),
                    *v == JsonValue::Array(*items),
                decreases n - i,
            {
                proof {
                    assert(ms.take(i + 1).drop_last() =~= ms.take(i as int));
                    assert(ms.take(i + 1).last() == ms[i as int]);
                    if i == 0 {
                        assert(ms.take(1)[0] == ms[0]);
                    }
                }
                if i > 0 {
                    out.append(",");
                }
                proof {
                    lemma_element_smaller(*v, *items, i as int);
                }
                write_json(&items[i], out);
                proof {
                    if i == 0 {
                        assert(out@ =~= start + "["@ + items_text(ms.take(1)));
                    } else {
                        assert(out@ =~= start + "["@ + items_text(ms.take(i + 1)));
                    }
                }
                i = i + 1;
            }
            assert(ms.take(n as int) =~= ms);
            out.append("]");
            assert(v@ == Json::Array(ms));
        },
        JsonValue::Object(entries) => {
            let ghost start = out@;
            let ghost es = entry_models(entries@);
            proof {
                lemma_entry_models(entries@);
                assert(es.take(0) =~= Seq::<(Seq<char>, Json)>::empty());
            }
            out.append("{");
            let n = entries.len();
            let mut i: usize = 0;
            while i < n
                invariant
                    n == entries.len(),
                    i <= n,
                    es == entry_models(entries@),
                    es.len() == n,
                    forall|k: int|
                        0 <= k < n ==> #[trigger] es[k] == (entries@[k].0@, entries@[k].1@),
                    out@ == start + "{"@ + members_text(es.take(i as int)),
                    *v == JsonValue::Object(*entries),
                decreases n - i,
            {
                proof {
                    assert(es.take(i + 1).drop_last() =~= es.take(i as int));
                    assert(es.take(i + 1).last() == es[i as int]);
                    if i == 0 {
                        assert(es.take(1)[0] == es[0]);
                    }
                }
                if i > 0 {
                    out.append(",");
                }
                let q = crate::external::quote_json_string(entries[i].0.as_str());
                out.append(q.as_str());
                out.append(":");
                proof {
                    lemma_member_smaller(*v, *entries, i as int);
                }
                write_json(&entries[i].1, out);
                proof {
                    assert(member_text(es[i as int].0, es[i as int].1)
                        == crate::external::json_string_literal(es[i as int].0) + ":"@ + json_text(
                        es[i as int].1,
                    ));
                    if i == 0 {
                        assert(out@ =~= start + "{"@ + members_text(es.take(1)));
                    } else {
                        assert(out@ =~= start + "{"@ + members_text(es.take(i + 1)));
                    }
                }
                i = i + 1;
            }
            assert(es.take(n as int) =~= es);
            out.append("}");
            assert(v@ == Json::Object(es));
        },
    }
}

/// The compact JSON text of `v`, as `Display` of a serde_json value gives it.
pub fn render_json(v: &JsonValue) -> (r: String)
    ensures
        r@ == json_text(v@),
{
    let mut out = String::new();
    write_json(v, &mut out);
    assert(out@ =~= json_text(v@));
    out
}

} // verus!

verus! {

/// An element of an array is smaller than the array.
pub proof fn lemma_element_smaller(v: JsonValue, items: Vec<JsonValue>, i: int)
    requires
        v == JsonValue::Array(items),
        0 <= i < items.len(),
    ensures
        decreases_to!(v => items@[i]),
{
    assert(decreases_to!(v => v->Array_0));
    assert(decreases_to!(items => items@));
    assert(decreases_to!(items@ => items@[i]));
}

/// A member value of an object is smaller than the object.
pub proof fn lemma_member_smaller(v: JsonValue, entries: Vec<(String, JsonValue)>, i: int)
    requires
        v == JsonValue::Object(entries),
        0 <= i < entries.len(),
    ensures
        decreases_to!(v => entries@[i].1),
{
    assert(decreases_to!(v => v->Object_0));
    assert(decreases_to!(entries => entries@));
    assert(decreases_to!(entries@ => entries@[i]));
    assert(decreases_to!(entries@[i] => entries@[i].1));
}

/// The JSON text of the literals is what serde_json prints: `null`, `true`
/// and `false`; a string is its escaped characters between double quotes;
/// an array is bracketed and an object braced; a non-negative integer is
/// its decimal digits, reading back as the number.
pub proof fn law_json_text_shapes(j: Json)
    ensures
        j is Null ==> json_text(j) == seq!['n', 'u', 'l', 'l'],
        j == Json::Bool(true) ==> json_text(j) == seq!['t', 'r', 'u', 'e'],
        j == Json::Bool(false) ==> json_text(j) == seq!['f', 'a', 'l', 's', 'e'],
        j matches Json::Str(s) ==> json_text(j) == seq!['"'] + crate::external::json_escaped(s)
            + seq!['"'],
        j is Array ==> json_text(j).len() >= 2 && json_text(j)[0] == '[' && json_text(j).last()
            == ']',
        j is Object ==> json_text(j).len() >= 2 && json_text(j)[0] == '{' && json_text(j).last()
            == '}',
        j matches Json::Number(NumberModel::PosInt(n)) ==> crate::text::digits_value(json_text(j))
            == n && (forall|i: int|
            0 <= i < json_text(j).len() ==> crate::text::is_digit(#[trigger] json_text(j)[i])),
{
    reveal_strlit("null");
    reveal_strlit("true");
    reveal_strlit("false");
    reveal_strlit("[");
    reveal_strlit("]");
    reveal_strlit("{");
    reveal_strlit("}");
    match j {
        Json::Number(NumberModel::PosInt(n)) => {
            crate::text::law_decimal_reads_back(n as nat);
        },
        Json::Array(xs) => {
            let t = json_text(j);
            assert(t == "["@ + items_text(xs) + "]"@);
            assert(t[0] == '[');
            assert(t.last() == ']');
        },
        Json::Object(es) => {
            let t = json_text(j);
            assert(t == "{"@ + members_text(es) + "}"@);
            assert(t[0] == '{');
            assert(t.last() == '}');
        },
        _ => {},
    }
}

/// A lookup finds the first entry with the key: it gives a value exactly
/// when some entry has the key, and then the value of the earliest such
/// entry.
pub proof fn law_lookup_first(es: Seq<(Seq<char>, Json)>, k: Seq<char>)
    ensures
        lookup(es, k) is Some <==> exists|i: int| 0 <= i < es.len() && #[trigger] es[i].0 == k,
        lookup(es, k) is Some ==> exists|i: int|
            0 <= i < es.len() && #[trigger] es[i].0 == k && lookup(es, k) == Some(es[i].1)
                && forall|m: int| 0 <= m < i ==> es[m].0 != k,
    decreases es.len(),
{
    if es.len() > 0 {
        let t = es.drop_first();
        law_lookup_first(t, k);
        if es[0].0 == k {
            assert(es[0].0 == k);
        } else {
            if exists|i: int| 0 <= i < es.len() && #[trigger] es[i].0 == k {
                let i = choose|i: int| 0 <= i < es.len() && #[trigger] es[i].0 == k;
                assert(t[i - 1] == es[i]);
            }
            if lookup(es, k) is Some {
                let i = choose|i: int|
                    0 <= i < t.len() && #[trigger] t[i].0 == k && lookup(t, k) == Some(t[i].1)
                        && forall|m: int| 0 <= m < i ==> t[m].0 != k;
                assert(es[i + 1] == t[i]);
                assert forall|m: int| 0 <= m < i + 1 implies es[m].0 != k by {
                    if m > 0 {
                        assert(es[m] == t[m - 1]);
                    }
                }
            }
        }
    }
}

} // verus!
