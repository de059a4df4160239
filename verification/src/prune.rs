//! Pruning a raw SearxNG response: low-value fields are dropped and results
//! from engines that did not respond are filtered out.
use vstd::prelude::*;
use crate::json::{
    Json, JsonValue, entry_models, json_at, json_get, json_models, lemma_entry_models, lookup,
    lemma_json_models, opt_array, opt_str,
};
use crate::text::str_eq;

verus! {

/// The names of the engines listed under `unresponsive_engines`: the first
/// element of each entry that is a string.
pub open spec fn unresponsive_names(items: Seq<Json>) -> Seq<Seq<char>>
    decreases items.len(),
{
    if items.len() == 0 {
        Seq::empty()
    } else {
        let rest = unresponsive_names(items.drop_last());
        match opt_str(json_at(items.last(), 0)) {
            Some(name) => rest.push(name),
            None => rest,
        }
    }
}

/// The unresponsive engines that a raw response reports.
pub open spec fn unresponsive_of(raw: Json) -> Seq<Seq<char>> {
    match opt_array(json_get(raw, "unresponsive_engines"@)) {
        Some(items) => unresponsive_names(items),
        None => Seq::empty(),
    }
}

/// Whether a result came from one of the `dead` engines: its `engine` is a
/// string listed there.
pub open spec fn from_dead_engine(r: Json, dead: Seq<Seq<char>>) -> bool {
    match opt_str(json_get(r, "engine"@)) {
        Some(e) => dead.contains(e),
        None => false,
    }
}

/// The member `k` of `r` as an entry list: one entry when `r` has it, none
/// otherwise.
pub open spec fn field_entry(r: Json, k: Seq<char>) -> Seq<(Seq<char>, Json)> {
    match json_get(r, k) {
        Some(v) => seq![(k, v)],
        None => Seq::empty(),
    }
}

/// The fields a pruned result keeps, in this order.
pub open spec fn kept_fields() -> Seq<Seq<char>> {
    seq!["url"@, "title"@, "content"@, "snippet"@, "publishedDate"@, "img_src"@, "score"@]
}

/// The members of a result that pruning keeps: `url`, `title`, `content`,
/// `snippet`, `publishedDate`, `img_src` and `score`, those that it has.
pub open spec fn selected_fields(r: Json) -> Seq<(Seq<char>, Json)> {
    field_entry(r, "url"@) + field_entry(r, "title"@) + field_entry(r, "content"@) + field_entry(
        r,
        "snippet"@,
    ) + field_entry(r, "publishedDate"@) + field_entry(r, "img_src"@) + field_entry(r, "score"@)
}

/// The pruned results: those from a responsive engine that are objects,
/// each reduced to its kept fields, in their order.
pub open spec fn pruned_results(rs: Seq<Json>, dead: Seq<Seq<char>>) -> Seq<Json>
    decreases rs.len(),
{
    if rs.len() == 0 {
        Seq::empty()
    } else {
        let rest = pruned_results(rs.drop_last(), dead);
        let r = rs.last();
        if from_dead_engine(r, dead) {
            rest
        } else if r is Object {
            rest.push(Json::Object(selected_fields(r)))
        } else {
            rest
        }
    }
}

/// Whether a top-level key is dropped by pruning.
pub open spec fn dropped_top_key(k: Seq<char>) -> bool {
    k == "number_of_results"@ || k == "unresponsive_engines"@
}

/// The top-level members after pruning: `number_of_results` and
/// `unresponsive_engines` dropped, `results` replaced when there are pruned
/// results to put there, the rest kept.
pub open spec fn rewrite_top(es: Seq<(Seq<char>, Json)>, results: Option<Json>) -> Seq<
    (Seq<char>, Json),
>
    decreases es.len(),
{
    if es.len() == 0 {
        Seq::empty()
    } else {
        let rest = rewrite_top(es.drop_last(), results);
        let k = es.last().0;
        if dropped_top_key(k) {
            rest
        } else if k == "results"@ && results is Some {
            rest.push((k, results->0))
        } else {
            rest.push(es.last())
        }
    }
}

/// The pruned results of a raw response, when its `results` is an array.
pub open spec fn pruned_results_of(raw: Json) -> Option<Json> {
    match opt_array(json_get(raw, "results"@)) {
        Some(rs) => Some(Json::Array(pruned_results(rs, unresponsive_of(raw)))),
        None => None,
    }
}

/// What pruning makes of a raw response. An object loses its
/// `number_of_results` and `unresponsive_engines`; where its `results` is an
/// array, that array is replaced by the pruned results; its other members
/// stay. Any other value is left as it was.
pub open spec fn pruned_output(raw: Json) -> Json {
    match raw {
        Json::Object(es) => Json::Object(rewrite_top(es, pruned_results_of(raw))),
        _ => raw,
    }
}

/// The texts of a list of strings.
pub open spec fn texts(v: Seq<String>) -> Seq<Seq<char>> {
    v.map_values(|s: String| s@)
}

/// The names of the engines that `raw` reports as unresponsive.
fn unresponsive_engines(raw: &JsonValue) -> (r: Vec<String>)
    ensures
        texts(r@) == unresponsive_of(raw@),
{
    let mut names: Vec<String> = Vec::new();
    let arr = match raw.get("unresponsive_engines") {
        Some(v) => v.as_array(),
        None => None,
    };
    match arr {
        Some(items) => {
            let ghost ms = json_models(items@);
            proof {
                lemma_json_models(items@);
                assert(ms.take(0) =~= Seq::<Json>::empty());
                assert(texts(names@) =~= Seq::<Seq<char>>::empty());
            }
            let n = items.len();
            let mut i: usize = 0;
            while i < n
                invariant
                    n == items.len(),
                    i <= n,
                    ms == json_models(items@),
                    ms.len() == n,
                    forall|k: int| 0 <= k < n ==> #[trigger] ms[k] == items@[k]@,
                    texts(names@) == unresponsive_names(ms.take(i as int)),
                decreases n - i,
            {
                proof {
                    assert(ms.take(i + 1).drop_last() =~= ms.take(i as int));
                    assert(ms.take(i + 1).last() == ms[i as int]);
                }
                let first = match items[i].get_index(0) {
                    Some(x) => x.as_str(),
                    None => None,
                };
                match first {
                    Some(name) => {
                        names.push(name.to_owned());
                        assert(texts(names@) =~= unresponsive_names(ms.take(i + 1)));
                    },
                    None => {},
                }
                i = i + 1;
            }
            assert(ms.take(n as int) =~= ms);
        },
        None => {
            assert(texts(names@) =~= Seq::<Seq<char>>::empty());
        },
    }
    names
}

/// Whether `name` is one of `names`.
fn contains_name(names: &Vec<String>, name: &str) -> (r: bool)
    ensures
        r == texts(names@).contains(name@),
{
    let n = names.len();
    let mut i: usize = 0;
    while i < n
        invariant
            n == names.len(),
            i <= n,
            forall|k: int| 0 <= k < i ==> names@[k]@ != name@,
        decreases n - i,
    {
        if str_eq(names[i].as_str(), name) {
            assert(texts(names@)[i as int] == name@);
            return true;
        }
        i = i + 1;
    }
    assert(!texts(names@).contains(name@)) by {
        if texts(names@).contains(name@) {
            let k = choose|k: int| 0 <= k < texts(names@).len() && texts(names@)[k] == name@;
            assert(names@[k]@ == name@);
        }
    }
    false
}

/// Appends the member `key` of `r`, when it has one, to `out`.
fn push_field(r: &JsonValue, key: &str, out: &mut Vec<(String, JsonValue)>)
    ensures
        entry_models(final(out)@) == entry_models(old(out)@) + field_entry(r@, key@),
{
    proof {
        lemma_entry_models(out@);
    }
    match r.get(key) {
        Some(v) => {
            let c = v.deep_clone();
            out.push((key.to_owned(), c));
            proof {
                lemma_entry_models(out@);
                assert(entry_models(out@) =~= entry_models(old(out)@) + field_entry(r@, key@));
            }
        },
        None => {
            assert(entry_models(out@) =~= entry_models(old(out)@) + field_entry(r@, key@));
        },
    }
}

/// The kept members of a result, as a new object.
fn select_fields(r: &JsonValue) -> (o: JsonValue)
    ensures
        o@ == Json::Object(selected_fields(r@)),
{
    let mut m: Vec<(String, JsonValue)> = Vec::new();
    assert(entry_models(m@) =~= Seq::<(Seq<char>, Json)>::empty());
    push_field(r, "url", &mut m);
    push_field(r, "title", &mut m);
    push_field(r, "content", &mut m);
    push_field(r, "snippet", &mut m);
    push_field(r, "publishedDate", &mut m);
    push_field(r, "img_src", &mut m);
    push_field(r, "score", &mut m);
    assert(entry_models(m@) =~= selected_fields(r@));
    JsonValue::Object(m)
}

/// The pruned results of `results`, leaving out those from the `dead`
/// engines.
fn prune_results(results: &Vec<JsonValue>, dead: &Vec<String>) -> (r: Vec<JsonValue>)
    ensures
        json_models(r@) == pruned_results(json_models(results@), texts(dead@)),
{
    let ghost ms = json_models(results@);
    let mut out: Vec<JsonValue> = Vec::new();
    proof {
        lemma_json_models(results@);
        assert(ms.take(0) =~= Seq::<Json>::empty());
        assert(json_models(out@) =~= Seq::<Json>::empty());
    }
    let n = results.len();
    let mut i: usize = 0;
    while i < n
        invariant
            n == results.len(),
            i <= n,
            ms == json_models(results@),
            ms.len() == n,
            forall|k: int| 0 <= k < n ==> #[trigger] ms[k] == results@[k]@,
            json_models(out@) == pruned_results(ms.take(i as int), texts(dead@)),
        decreases n - i,
    {
        proof {
            assert(ms.take(i + 1).drop_last() =~= ms.take(i as int));
            assert(ms.take(i + 1).last() == ms[i as int]);
            lemma_json_models(out@);
        }
        let r = &results[i];
        let dead_engine = match r.get("engine") {
            Some(e) => match e.as_str() {
                Some(name) => contains_name(dead, name),
                None => false,
            },
            None => false,
        };
        if !dead_engine && r.is_object() {
            let o = select_fields(r);
            out.push(o);
            proof {
                lemma_json_models(out@);
                assert(json_models(out@) =~= pruned_results(ms.take(i + 1), texts(dead@)));
            }
        }
        i = i + 1;
    }
    assert(ms.take(n as int) =~= ms);
    out
}

/// Builds the pruned form of a raw SearxNG response `raw`: the top-level
/// `number_of_results` and `unresponsive_engines` are removed; where
/// `results` is an array, every result from an engine listed in
/// `unresponsive_engines` is left out and every other result keeps only its
/// `url`, `title`, `content`, `snippet`, `publishedDate`, `img_src` and
/// `score`. The query and the result limit play no part.
pub fn build_pruned_output(query: &str, raw: &JsonValue, max_results: usize) -> (out: JsonValue)
    ensures
        out@ == pruned_output(raw@),
{
    let _ = query;
    let _ = max_results;
    let dead = unresponsive_engines(raw);
    let results = match raw.get("results") {
        Some(v) => v.as_array(),
        None => None,
    };
    let pruned: Option<JsonValue> = match results {
        None => None,
        Some(rs) => Some(JsonValue::Array(prune_results(rs, &dead))),
    };
    let ghost pruned_model: Option<Json> = match &pruned {
        Some(p) => Some(p@),
        None => None,
    };
    assert(pruned_model == pruned_results_of(raw@));
    match raw {
        JsonValue::Object(entries) => {
            let ghost es = entry_models(entries@);
            let mut out: Vec<(String, JsonValue)> = Vec::new();
            proof {
                lemma_entry_models(entries@);
                assert(es.take(0) =~= Seq::<(Seq<char>, Json)>::empty());
                assert(entry_models(out@) =~= Seq::<(Seq<char>, Json)>::empty());
            }
            let n = entries.len();
            let mut i: usize = 0;
            while i < n
                invariant
                    n == entries.len(),
                    i <= n,
                    es == entry_models(entries@),
                    es.len() == n,
                    forall|k: int|
                        0 <= k < n ==> #[trigger] es[k] == (entries@[k].0@, entries@[k].1@),
                    pruned_model == (match &pruned {
                        Some(p) => Some(p@),
                        None => None::<Json>,
                    }),
                    entry_models(out@) == rewrite_top(es.take(i as int), pruned_model),
                decreases n - i,
            {
                proof {
                    assert(es.take(i + 1).drop_last() =~= es.take(i as int));
                    assert(es.take(i + 1).last() == es[i as int]);
                    lemma_entry_models(out@);
                }
                let key = entries[i].0.as_str();
                if str_eq(key, "number_of_results") || str_eq(key, "unresponsive_engines") {
                } else {
                    let c = if str_eq(key, "results") {
                        match &pruned {
                            Some(p) => p.deep_clone(),
                            None => entries[i].1.deep_clone(),
                        }
                    } else {
                        entries[i].1.deep_clone()
                    };
                    out.push((key.to_owned(), c));
                    proof {
                        lemma_entry_models(out@);
                        assert(entry_models(out@) =~= rewrite_top(es.take(i + 1), pruned_model));
                    }
                }
                i = i + 1;
            }
            assert(es.take(n as int) =~= es);
            assert(raw@ == Json::Object(es));
            JsonValue::Object(out)
        },
        _ => raw.deep_clone(),
    }
}

} // verus!

verus! {

/// Looking a key up in two entry lists joined finds it in the first one if
/// it is there, else in the second.
pub proof fn lemma_lookup_concat(a: Seq<(Seq<char>, Json)>, b: Seq<(Seq<char>, Json)>, k: Seq<char>)
    ensures
        lookup(a + b, k) == (match lookup(a, k) {
            Some(v) => Some(v),
            None => lookup(b, k),
        }),
    decreases a.len(),
{
    if a.len() == 0 {
        assert(a + b =~= b);
    } else {
        assert((a + b).drop_first() =~= a.drop_first() + b);
        assert((a + b)[0] == a[0]);
        lemma_lookup_concat(a.drop_first(), b, k);
    }
}

/// Looking a key up after one more entry.
pub proof fn lemma_lookup_push(a: Seq<(Seq<char>, Json)>, e: (Seq<char>, Json), k: Seq<char>)
    ensures
        lookup(a.push(e), k) == (match lookup(a, k) {
            Some(v) => Some(v),
            None => if e.0 == k {
                Some(e.1)
            } else {
                None
            },
        }),
{
    assert(a.push(e) =~= a + seq![e]);
    lemma_lookup_concat(a, seq![e], k);
    assert(seq![e].drop_first() =~= Seq::<(Seq<char>, Json)>::empty());
    assert(lookup(seq![e].drop_first(), k) is None);
}

/// A one-field entry list has the field and nothing else.
proof fn lemma_lookup_field_entry(r: Json, f: Seq<char>, k: Seq<char>)
    ensures
        lookup(field_entry(r, f), k) == if f == k {
            json_get(r, k)
        } else {
            None
        },
{
    match json_get(r, f) {
        Some(v) => {
            assert(seq![(f, v)].drop_first() =~= Seq::<(Seq<char>, Json)>::empty());
            assert(lookup(seq![(f, v)].drop_first(), k) is None);
        },
        None => {
            assert(lookup(Seq::<(Seq<char>, Json)>::empty(), k) is None);
        },
    }
}

/// A pruned result holds exactly the kept fields of its source: each kept
/// field with its value unchanged (so `content` comes through verbatim), and
/// no other field (so `thumbnail`, `engine`, `template`, `parsed_url`,
/// `priority`, `engines`, `positions` and `category` are gone).
pub proof fn law_pruned_result_fields(r: Json, k: Seq<char>)
    ensures
        json_get(Json::Object(selected_fields(r)), k) == if kept_fields().contains(k) {
            json_get(r, k)
        } else {
            None
        },
{
    let names = kept_fields();
    let e0 = field_entry(r, "url"@);
    let e1 = field_entry(r, "title"@);
    let e2 = field_entry(r, "content"@);
    let e3 = field_entry(r, "snippet"@);
    let e4 = field_entry(r, "publishedDate"@);
    let e5 = field_entry(r, "img_src"@);
    let e6 = field_entry(r, "score"@);
    lemma_lookup_field_entry(r, "url"@, k);
    lemma_lookup_field_entry(r, "title"@, k);
    lemma_lookup_field_entry(r, "content"@, k);
    lemma_lookup_field_entry(r, "snippet"@, k);
    lemma_lookup_field_entry(r, "publishedDate"@, k);
    lemma_lookup_field_entry(r, "img_src"@, k);
    lemma_lookup_field_entry(r, "score"@, k);
    lemma_lookup_concat(e0, e1, k);
    lemma_lookup_concat(e0 + e1, e2, k);
    lemma_lookup_concat(e0 + e1 + e2, e3, k);
    lemma_lookup_concat(e0 + e1 + e2 + e3, e4, k);
    lemma_lookup_concat(e0 + e1 + e2 + e3 + e4, e5, k);
    lemma_lookup_concat(e0 + e1 + e2 + e3 + e4 + e5, e6, k);
    if names.contains(k) {
        let i = choose|i: int| 0 <= i < names.len() && names[i] == k;
        assert(i == 0 || i == 1 || i == 2 || i == 3 || i == 4 || i == 5 || i == 6);
    } else {
        assert(names[0] != k);
        assert(names[1] != k);
        assert(names[2] != k);
        assert(names[3] != k);
        assert(names[4] != k);
        assert(names[5] != k);
        assert(names[6] != k);
    }
}

/// Looking a key up among the rewritten top-level members.
pub proof fn lemma_lookup_rewrite_top(
    es: Seq<(Seq<char>, Json)>,
    results: Option<Json>,
    k: Seq<char>,
)
    ensures
        lookup(rewrite_top(es, results), k) == if dropped_top_key(k) {
            None
        } else if k == "results"@ && results is Some {
            if lookup(es, k) is Some {
                results
            } else {
                None
            }
        } else {
            lookup(es, k)
        },
    decreases es.len(),
{
    if es.len() == 0 {
    } else {
        let s = es.drop_last();
        let e = es.last();
        assert(s.push(e) =~= es);
        lemma_lookup_rewrite_top(s, results, k);
        lemma_lookup_push(s, e, k);
        if dropped_top_key(e.0) {
        } else if e.0 == "results"@ && results is Some {
            lemma_lookup_push(rewrite_top(s, results), (e.0, results->0), k);
        } else {
            lemma_lookup_push(rewrite_top(s, results), e, k);
        }
    }
}

/// After pruning, `number_of_results` and `unresponsive_engines` are gone;
/// where `results` was an array it holds the pruned results; every other
/// member (such as `query` or `suggestions`) is as it was.
pub proof fn law_pruned_top_level(raw: Json, k: Seq<char>)
    ensures
        json_get(pruned_output(raw), k) == if dropped_top_key(k) {
            None
        } else if k == "results"@ && pruned_results_of(raw) is Some {
            pruned_results_of(raw)
        } else {
            json_get(raw, k)
        },
{
    match raw {
        Json::Object(es) => {
            lemma_lookup_rewrite_top(es, pruned_results_of(raw), k);
        },
        _ => {},
    }
}

/// A value that is not an object comes out of pruning as it was.
pub proof fn law_pruned_non_object(raw: Json)
    requires
        !(raw is Object),
    ensures
        pruned_output(raw) == raw,
{
}

/// One more source result adds at most its own pruned form.
proof fn lemma_pruned_results_step(rs: Seq<Json>, dead: Seq<Seq<char>>)
    requires
        rs.len() > 0,
    ensures
        ({
            let r = rs.last();
            let ps = pruned_results(rs.drop_last(), dead);
            if !from_dead_engine(r, dead) && r is Object {
                pruned_results(rs, dead) == ps.push(Json::Object(selected_fields(r)))
            } else {
                pruned_results(rs, dead) == ps
            }
        }),
{
}

/// Every pruned result comes from a source result that is an object and was
/// not served by an unresponsive engine; there are no more pruned results
/// than source results.
pub proof fn law_pruned_results_from_sources(rs: Seq<Json>, dead: Seq<Seq<char>>)
    ensures
        pruned_results(rs, dead).len() <= rs.len(),
        forall|j: int|
            0 <= j < pruned_results(rs, dead).len() ==> exists|i: int|
                0 <= i < rs.len() && !from_dead_engine(rs[i], dead) && rs[i] is Object
                    && #[trigger] pruned_results(rs, dead)[j] == Json::Object(
                    selected_fields(rs[i]),
                ),
    decreases rs.len(),
{
    if rs.len() > 0 {
        let s = rs.drop_last();
        law_pruned_results_from_sources(s, dead);
        lemma_pruned_results_step(rs, dead);
        let p = pruned_results(rs, dead);
        let ps = pruned_results(s, dead);
        assert forall|j: int| 0 <= j < p.len() implies exists|i: int|
            0 <= i < rs.len() && !from_dead_engine(rs[i], dead) && rs[i] is Object
                && #[trigger] p[j] == Json::Object(selected_fields(rs[i])) by {
            if j < ps.len() {
                assert(p[j] == ps[j]);
                let i = choose|i: int|
                    0 <= i < s.len() && !from_dead_engine(s[i], dead) && s[i] is Object
                        && #[trigger] ps[j] == Json::Object(selected_fields(s[i]));
                assert(rs[i] == s[i]);
            } else {
                assert(rs[rs.len() - 1] == rs.last());
            }
        }
    }
}

/// Every source result that is an object and was not served by an
/// unresponsive engine gives a pruned result.
pub proof fn law_pruned_results_keep_responsive(rs: Seq<Json>, dead: Seq<Seq<char>>)
    ensures
        forall|i: int|
            0 <= i < rs.len() && !from_dead_engine(rs[i], dead) && rs[i] is Object ==> exists|
                j: int,
            |
                0 <= j < pruned_results(rs, dead).len() && pruned_results(rs, dead)[j]
                    == Json::Object(selected_fields(#[trigger] rs[i])),
    decreases rs.len(),
{
    if rs.len() > 0 {
        let s = rs.drop_last();
        law_pruned_results_keep_responsive(s, dead);
        lemma_pruned_results_step(rs, dead);
        let p = pruned_results(rs, dead);
        let ps = pruned_results(s, dead);
        assert forall|i: int|
            0 <= i < rs.len() && !from_dead_engine(rs[i], dead) && rs[i] is Object implies exists|
                j: int,
            |
                0 <= j < p.len() && p[j] == Json::Object(selected_fields(#[trigger] rs[i])) by {
            if i < s.len() {
                assert(rs[i] == s[i]);
                let j = choose|j: int|
                    0 <= j < ps.len() && ps[j] == Json::Object(selected_fields(#[trigger] s[i]));
                assert(p[j] == ps[j]);
            } else {
                assert(rs[i] == rs.last());
                assert(p[p.len() - 1] == Json::Object(selected_fields(rs.last())));
            }
        }
    }
}

} // verus!

verus! {

/// Rewriting the top-level members a second time changes nothing.
proof fn lemma_rewrite_top_twice(es: Seq<(Seq<char>, Json)>, results: Option<Json>)
    ensures
        rewrite_top(rewrite_top(es, results), results) == rewrite_top(es, results),
    decreases es.len(),
{
    if es.len() > 0 {
        let s = es.drop_last();
        let e = es.last();
        lemma_rewrite_top_twice(s, results);
        let t = rewrite_top(s, results);
        if dropped_top_key(e.0) {
        } else if e.0 == "results"@ && results is Some {
            let x = (e.0, results->0);
            assert(t.push(x).drop_last() =~= t);
            assert(t.push(x).last() == x);
        } else {
            assert(t.push(e).drop_last() =~= t);
            assert(t.push(e).last() == e);
        }
    }
}

/// The kept fields of a pruned result are the pruned result again.
proof fn lemma_select_twice(y: Json)
    ensures
        selected_fields(Json::Object(selected_fields(y))) == selected_fields(y),
{
    let o = Json::Object(selected_fields(y));
    law_pruned_result_fields(y, "url"@);
    law_pruned_result_fields(y, "title"@);
    law_pruned_result_fields(y, "content"@);
    law_pruned_result_fields(y, "snippet"@);
    law_pruned_result_fields(y, "publishedDate"@);
    law_pruned_result_fields(y, "img_src"@);
    law_pruned_result_fields(y, "score"@);
    assert(kept_fields()[0] == "url"@);
    assert(kept_fields()[1] == "title"@);
    assert(kept_fields()[2] == "content"@);
    assert(kept_fields()[3] == "snippet"@);
    assert(kept_fields()[4] == "publishedDate"@);
    assert(kept_fields()[5] == "img_src"@);
    assert(kept_fields()[6] == "score"@);
    assert(field_entry(o, "url"@) == field_entry(y, "url"@));
    assert(field_entry(o, "title"@) == field_entry(y, "title"@));
    assert(field_entry(o, "content"@) == field_entry(y, "content"@));
    assert(field_entry(o, "snippet"@) == field_entry(y, "snippet"@));
    assert(field_entry(o, "publishedDate"@) == field_entry(y, "publishedDate"@));
    assert(field_entry(o, "img_src"@) == field_entry(y, "img_src"@));
    assert(field_entry(o, "score"@) == field_entry(y, "score"@));
}

/// Pruning results that are already pruned, with no unresponsive engine,
/// gives them back.
proof fn lemma_prune_pruned(xs: Seq<Json>)
    requires
        forall|j: int|
            0 <= j < xs.len() ==> exists|y: Json| #[trigger] xs[j] == Json::Object(selected_fields(y)),
    ensures
        pruned_results(xs, Seq::empty()) == xs,
    decreases xs.len(),
{
    if xs.len() > 0 {
        let s = xs.drop_last();
        assert forall|j: int| 0 <= j < s.len() implies exists|y: Json| #[trigger] s[j]
            == Json::Object(selected_fields(y)) by {
            assert(s[j] == xs[j]);
        }
        lemma_prune_pruned(s);
        lemma_pruned_results_step(xs, Seq::empty());
        let x = xs.last();
        assert(xs[xs.len() - 1] == x);
        let y = choose|y: Json| xs[xs.len() - 1] == Json::Object(selected_fields(y));
        lemma_select_twice(y);
        assert(!from_dead_engine(x, Seq::empty()));
        assert(s.push(x) =~= xs);
    }
}

/// Pruning is idempotent: pruning a pruned response changes nothing.
pub proof fn law_prune_idempotent(raw: Json)
    ensures
        pruned_output(pruned_output(raw)) == pruned_output(raw),
{
    match raw {
        Json::Object(es) => {
            let r = pruned_results_of(raw);
            let p = pruned_output(raw);
            assert(p == Json::Object(rewrite_top(es, r)));
            reveal_strlit("results");
            reveal_strlit("number_of_results");
            reveal_strlit("unresponsive_engines");
            assert("results"@.len() == 7);
            assert("number_of_results"@.len() == 17);
            assert("unresponsive_engines"@.len() == 20);
            assert(!dropped_top_key("results"@));
            lemma_lookup_rewrite_top(es, r, "results"@);
            lemma_lookup_rewrite_top(es, r, "unresponsive_engines"@);
            assert(unresponsive_of(p) == Seq::<Seq<char>>::empty());
            match opt_array(json_get(raw, "results"@)) {
                None => {
                    assert(opt_array(json_get(p, "results"@)) is None);
                    assert(pruned_results_of(p) == r);
                },
                Some(rs) => {
                    let pr = pruned_results(rs, unresponsive_of(raw));
                    assert(opt_array(json_get(p, "results"@)) == Some(pr));
                    law_pruned_results_from_sources(rs, unresponsive_of(raw));
                    assert forall|j: int| 0 <= j < pr.len() implies exists|y: Json| #[trigger] pr[j]
                        == Json::Object(selected_fields(y)) by {
                        let i = choose|i: int|
                            0 <= i < rs.len() && !from_dead_engine(rs[i], unresponsive_of(raw))
                                && rs[i] is Object && #[trigger] pr[j] == Json::Object(
                                selected_fields(rs[i]),
                            );
                    }
                    lemma_prune_pruned(pr);
                    assert(pruned_results_of(p) == r);
                },
            }
            lemma_rewrite_top_twice(es, r);
        },
        _ => {},
    }
}

/// The name at the start of an entry of the list is among the names.
proof fn lemma_unresponsive_names_contain(items: Seq<Json>, i: int, e: Seq<char>)
    requires
        0 <= i < items.len(),
        opt_str(json_at(items[i], 0)) == Some(e),
    ensures
        unresponsive_names(items).contains(e),
    decreases items.len(),
{
    let s = items.drop_last();
    let rest = unresponsive_names(s);
    if i == items.len() - 1 {
        assert(items.last() == items[i]);
        assert(rest.push(e)[rest.len() as int] == e);
    } else {
        assert(s[i] == items[i]);
        lemma_unresponsive_names_contain(s, i, e);
        let k = choose|k: int| 0 <= k < rest.len() && rest[k] == e;
        match opt_str(json_at(items.last(), 0)) {
            Some(name) => {
                assert(rest.push(name)[k] == e);
            },
            None => {},
        }
    }
}

/// Every engine named in `unresponsive_engines` (the first element of any of
/// its entries, when that is a string) counts as unresponsive, not only the
/// first one listed.
pub proof fn law_every_listed_engine_unresponsive(raw: Json, items: Seq<Json>, i: int, e: Seq<char>)
    requires
        opt_array(json_get(raw, "unresponsive_engines"@)) == Some(items),
        0 <= i < items.len(),
        opt_str(json_at(items[i], 0)) == Some(e),
    ensures
        unresponsive_of(raw).contains(e),
{
    lemma_unresponsive_names_contain(items, i, e);
}

/// A result served by an unresponsive engine leaves no trace: the pruned
/// results are those of the other results.
pub proof fn lemma_pruned_without_dead(rs: Seq<Json>, dead: Seq<Seq<char>>, j: int)
    requires
        0 <= j < rs.len(),
        from_dead_engine(rs[j], dead),
    ensures
        pruned_results(rs, dead) == pruned_results(rs.remove(j), dead),
    decreases rs.len(),
{
    lemma_pruned_results_step(rs, dead);
    if j == rs.len() - 1 {
        assert(rs.remove(j) =~= rs.drop_last());
    } else {
        let s = rs.drop_last();
        assert(s[j] == rs[j]);
        lemma_pruned_without_dead(s, dead, j);
        let t = rs.remove(j);
        assert(t.drop_last() =~= s.remove(j));
        assert(t.last() == rs.last());
        lemma_pruned_results_step(t, dead);
    }
}

/// Pruning leaves out every result whose engine is named by any entry of
/// `unresponsive_engines`: the pruned results of the reply are those of the
/// reply without that result.
pub proof fn law_pruned_skips_unresponsive(
    raw: Json,
    items: Seq<Json>,
    i: int,
    rs: Seq<Json>,
    j: int,
)
    requires
        opt_array(json_get(raw, "unresponsive_engines"@)) == Some(items),
        0 <= i < items.len(),
        opt_array(json_get(raw, "results"@)) == Some(rs),
        0 <= j < rs.len(),
        opt_str(json_at(items[i], 0)) is Some,
        opt_str(json_get(rs[j], "engine"@)) == opt_str(json_at(items[i], 0)),
    ensures
        pruned_results(rs, unresponsive_of(raw)) == pruned_results(rs.remove(j), unresponsive_of(raw)),
        json_get(pruned_output(raw), "results"@) == Some(
            Json::Array(pruned_results(rs.remove(j), unresponsive_of(raw))),
        ),
{
    let e = opt_str(json_at(items[i], 0))->0;
    law_every_listed_engine_unresponsive(raw, items, i, e);
    lemma_pruned_without_dead(rs, unresponsive_of(raw), j);
    law_pruned_top_level(raw, "results"@);
    reveal_strlit("results");
    reveal_strlit("number_of_results");
    reveal_strlit("unresponsive_engines");
    assert("results"@.len() == 7);
    assert("number_of_results"@.len() == 17);
    assert("unresponsive_engines"@.len() == 20);
}

/// The kept fields are exactly `url`, `title`, `content`, `snippet`,
/// `publishedDate`, `img_src` and `score`.
pub proof fn law_kept_fields_named(k: Seq<char>)
    ensures
        kept_fields().contains(k) <==> (k == "url"@ || k == "title"@ || k == "content"@ || k
            == "snippet"@ || k == "publishedDate"@ || k == "img_src"@ || k == "score"@),
{
    let names = kept_fields();
    if k == "url"@ || k == "title"@ || k == "content"@ || k == "snippet"@ || k == "publishedDate"@
        || k == "img_src"@ || k == "score"@ {
        if k == "url"@ {
            assert(names[0] == k);
        } else if k == "title"@ {
            assert(names[1] == k);
        } else if k == "content"@ {
            assert(names[2] == k);
        } else if k == "snippet"@ {
            assert(names[3] == k);
        } else if k == "publishedDate"@ {
            assert(names[4] == k);
        } else if k == "img_src"@ {
            assert(names[5] == k);
        } else {
            assert(names[6] == k);
        }
    }
}

/// The top-level keys that pruning drops are exactly `number_of_results`
/// and `unresponsive_engines`.
pub proof fn law_dropped_keys_named(k: Seq<char>)
    ensures
        dropped_top_key(k) <==> (k == "number_of_results"@ || k == "unresponsive_engines"@),
{
}

/// Only engines named by an entry of `unresponsive_engines` count as
/// unresponsive: each such name is the first element of some entry.
pub proof fn law_unresponsive_only_listed(raw: Json, e: Seq<char>)
    requires
        unresponsive_of(raw).contains(e),
    ensures
        opt_array(json_get(raw, "unresponsive_engines"@)) is Some,
        exists|i: int|
            0 <= i < opt_array(json_get(raw, "unresponsive_engines"@))->0.len() && opt_str(
                json_at(#[trigger] opt_array(json_get(raw, "unresponsive_engines"@))->0[i], 0),
            ) == Some(e),
{
    let items = opt_array(json_get(raw, "unresponsive_engines"@))->0;
    lemma_unresponsive_names_from(items, e);
}

proof fn lemma_unresponsive_names_from(items: Seq<Json>, e: Seq<char>)
    requires
        unresponsive_names(items).contains(e),
    ensures
        exists|i: int| 0 <= i < items.len() && opt_str(json_at(#[trigger] items[i], 0)) == Some(e),
    decreases items.len(),
{
    let s = items.drop_last();
    let rest = unresponsive_names(s);
    if rest.contains(e) {
        lemma_unresponsive_names_from(s, e);
        let i = choose|i: int| 0 <= i < s.len() && opt_str(json_at(#[trigger] s[i], 0)) == Some(e);
        assert(items[i] == s[i]);
    } else {
        let k = choose|k: int| 0 <= k < unresponsive_names(items).len() && unresponsive_names(items)[k] == e;
        match opt_str(json_at(items.last(), 0)) {
            Some(name) => {
                if k < rest.len() {
                    assert(rest[k] == e);
                } else {
                    assert(name == e);
                    assert(items[items.len() - 1] == items.last());
                }
            },
            None => {
                assert(rest[k] == e);
            },
        }
    }
}

/// Pruning treats results one by one: the pruned results of two runs of
/// results joined are the pruned results of each, joined in order.
pub proof fn law_pruned_results_concat(a: Seq<Json>, b: Seq<Json>, dead: Seq<Seq<char>>)
    ensures
        pruned_results(a + b, dead) == pruned_results(a, dead) + pruned_results(b, dead),
    decreases b.len(),
{
    if b.len() == 0 {
        assert(a + b =~= a);
        assert(pruned_results(a, dead) + pruned_results(b, dead) =~= pruned_results(a, dead));
    } else {
        law_pruned_results_concat(a, b.drop_last(), dead);
        assert((a + b).drop_last() =~= a + b.drop_last());
        assert((a + b).last() == b.last());
        lemma_pruned_results_step(a + b, dead);
        lemma_pruned_results_step(b, dead);
        let pa = pruned_results(a, dead);
        let pb = pruned_results(b.drop_last(), dead);
        let x = Json::Object(selected_fields(b.last()));
        assert((pa + pb).push(x) =~= pa + pb.push(x));
    }
}

/// A single result is pruned to its kept fields when it is an object from a
/// responsive engine, and is left out otherwise.
pub proof fn law_pruned_single_result(r: Json, dead: Seq<Seq<char>>)
    ensures
        pruned_results(seq![r], dead) == if !from_dead_engine(r, dead) && r is Object {
            seq![Json::Object(selected_fields(r))]
        } else {
            Seq::<Json>::empty()
        },
{
    assert(seq![r].drop_last() =~= Seq::<Json>::empty());
    assert(seq![r].last() == r);
    lemma_pruned_results_step(seq![r], dead);
    assert(Seq::<Json>::empty().push(Json::Object(selected_fields(r))) =~= seq![
        Json::Object(selected_fields(r)),
    ]);
}

/// A result counts as served by an unresponsive engine exactly when its
/// `engine` is a string among the unresponsive names.
pub proof fn law_dead_engine_means(r: Json, dead: Seq<Seq<char>>)
    ensures
        from_dead_engine(r, dead) <==> (json_get(r, "engine"@) matches Some(Json::Str(e))
            && dead.contains(e)),
{
}

} // verus!
