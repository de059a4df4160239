//! Rendering a pruned response as Markdown.
use vstd::prelude::*;
use vstd::string::*;
use crate::json::{
    Json, JsonValue, json_get, json_models, json_text, lemma_json_models, opt_array, opt_str, json_str,
    write_json,
};
use crate::prune::{
    dropped_top_key, from_dead_engine, kept_fields, law_pruned_result_fields,
    law_pruned_results_from_sources, law_pruned_top_level, pruned_output, pruned_results,
    selected_fields, unresponsive_of,
};
use crate::text::{decimal, u64_to_decimal};

verus! {

/// The text of member `k` of `r` when it is a string, else `default`.
pub open spec fn str_or(r: Json, k: Seq<char>, default: Seq<char>) -> Seq<char> {
    match opt_str(json_get(r, k)) {
        Some(t) => t,
        None => default,
    }
}

/// How a field's value is shown: a string as it is, any other value as its
/// JSON text.
pub open spec fn field_text(v: Json) -> Seq<char> {
    match v {
        Json::Str(s) => s,
        _ => json_text(v),
    }
}

/// The shown text of member `k` of `r`, or `default` when `r` has none.
pub open spec fn text_or(r: Json, k: Seq<char>, default: Seq<char>) -> Seq<char> {
    match json_get(r, k) {
        Some(v) => field_text(v),
        None => default,
    }
}

/// An indented line for member `k` of `r`, when `r` has it: `lead`, the
/// shown text of the value, and a blank line.
pub open spec fn indented(r: Json, k: Seq<char>, lead: Seq<char>) -> Seq<char> {
    match json_get(r, k) {
        Some(v) => lead + field_text(v) + "\n\n"@,
        None => Seq::empty(),
    }
}

/// The score line of a result, when it has a `score`: the label and the
/// score as JSON text (a string score is shown quoted, as serde_json prints
/// it).
pub open spec fn score_line(r: Json) -> Seq<char> {
    match json_get(r, "score"@) {
        Some(v) => "  **score**: "@ + json_text(v) + "\n\n"@,
        None => Seq::empty(),
    }
}

/// How the field `k` of a result shows its value `v`: the score as JSON
/// text, any other field as `field_text` says.
pub open spec fn shown_text(k: Seq<char>, v: Json) -> Seq<char> {
    if k == "score"@ {
        json_text(v)
    } else {
        field_text(v)
    }
}

/// The bullet line of a result: its title (or `(no title)`) in bold, a dash
/// and its URL.
pub open spec fn item_heading(r: Json) -> Seq<char> {
    "- **"@ + text_or(r, "title"@, "(no title)"@) + "** \u{2014} "@ + text_or(r, "url"@, ""@)
        + "\n\n"@
}

/// The Markdown of one result: its bullet line, then, indented, its
/// `snippet`, its `content` quoted with `>`, and its `publishedDate`,
/// `img_src` with their labels, and its `score` as JSON text; every field it
/// has is shown.
pub open spec fn item_markdown(r: Json) -> Seq<char> {
    item_heading(r) + indented(r, "snippet"@, "  "@) + indented(r, "content"@, "  > "@) + indented(
        r,
        "publishedDate"@,
        "  **publishedDate**: "@,
    ) + indented(r, "img_src"@, "  **img_src**: "@) + score_line(r)
}

/// The Markdown of a list of results.
pub open spec fn items_markdown(rs: Seq<Json>) -> Seq<char>
    decreases rs.len(),
{
    if rs.len() == 0 {
        Seq::empty()
    } else {
        items_markdown(rs.drop_last()) + item_markdown(rs.last())
    }
}

/// The bullet lines of the suggestions that are strings.
pub open spec fn suggestion_lines(ss: Seq<Json>) -> Seq<char>
    decreases ss.len(),
{
    if ss.len() == 0 {
        Seq::empty()
    } else {
        suggestion_lines(ss.drop_last()) + match json_str(ss.last()) {
            Some(t) => "- "@ + t + "\n"@,
            None => Seq::empty(),
        }
    }
}

/// The suggestions section, present when `suggestions` is a non-empty array.
pub open spec fn suggestions_markdown(pruned: Json) -> Seq<char> {
    match opt_array(json_get(pruned, "suggestions"@)) {
        Some(ss) => if ss.len() > 0 {
            "### Suggestions\n\n"@ + suggestion_lines(ss) + "\n"@
        } else {
            Seq::empty()
        },
        None => Seq::empty(),
    }
}

/// The results of a pruned response: its `results` array, or none.
pub open spec fn results_of(pruned: Json) -> Seq<Json> {
    match opt_array(json_get(pruned, "results"@)) {
        Some(rs) => rs,
        None => Seq::empty(),
    }
}

/// How many results are listed: `max_results`, or all when there are fewer.
pub open spec fn listed_count(n: nat, max_results: nat) -> nat {
    if max_results < n {
        max_results
    } else {
        n
    }
}

/// The Markdown of a pruned response: a heading with its `query`, the count
/// of all its results, the first `max_results` results, and its suggestions.
pub open spec fn search_markdown(pruned: Json, max_results: nat) -> Seq<char> {
    let rs = results_of(pruned);
    "# search: "@ + str_or(pruned, "query"@, ""@) + "\n\n"@ + "## Results ("@ + decimal(rs.len())
        + ")\n\n"@ + items_markdown(rs.take(listed_count(rs.len(), max_results) as int))
        + suggestions_markdown(pruned)
}

/// Appends the shown text of a field's value.
fn push_field_text(out: &mut String, v: &JsonValue)
    ensures
        final(out)@ == old(out)@ + field_text(v@),
{
    match v.as_str() {
        Some(t) => out.append(t),
        None => write_json(v, out),
    }
}

/// Appends the shown text of member `key` of `r`, or `default`.
fn push_text_or(out: &mut String, r: &JsonValue, key: &str, default: &str)
    ensures
        final(out)@ == old(out)@ + text_or(r@, key@, default@),
{
    match r.get(key) {
        Some(v) => push_field_text(out, v),
        None => out.append(default),
    }
}

/// Appends the indented line for member `key` of `r`, when it has one.
fn push_indented(out: &mut String, r: &JsonValue, key: &str, lead: &str)
    ensures
        final(out)@ == old(out)@ + indented(r@, key@, lead@),
{
    match r.get(key) {
        Some(v) => {
            out.append(lead);
            push_field_text(out, v);
            out.append("\n\n");
            assert(out@ =~= old(out)@ + indented(r@, key@, lead@));
        },
        None => {
            assert(out@ =~= old(out)@ + indented(r@, key@, lead@));
        },
    }
}

/// Appends the score line of the result `r`, when it has a score.
fn push_score(out: &mut String, r: &JsonValue)
    ensures
        final(out)@ == old(out)@ + score_line(r@),
{
    match r.get("score") {
        Some(v) => {
            out.append("  **score**: ");
            write_json(v, out);
            out.append("\n\n");
            assert(out@ =~= old(out)@ + score_line(r@));
        },
        None => {
            assert(out@ =~= old(out)@ + score_line(r@));
        },
    }
}

/// Appends the Markdown of the result `r`.
fn push_item(out: &mut String, r: &JsonValue)
    ensures
        final(out)@ == old(out)@ + item_markdown(r@),
{
    out.append("- **");
    push_text_or(out, r, "title", "(no title)");
    out.append("** \u{2014} ");
    push_text_or(out, r, "url", "");
    out.append("\n\n");
    assert(out@ =~= old(out)@ + item_heading(r@));
    push_indented(out, r, "snippet", "  ");
    push_indented(out, r, "content", "  > ");
    push_indented(out, r, "publishedDate", "  **publishedDate**: ");
    push_indented(out, r, "img_src", "  **img_src**: ");
    push_score(out, r);
    assert(out@ =~= old(out)@ + item_markdown(r@));
}

/// Renders a pruned response as Markdown: a `# search:` heading with the
/// response's `query`, a `## Results (n)` heading with the count of all its
/// results, then the first `max_results` results, each a bullet with its
/// title in bold and its URL, then indented its `snippet`, its `content`
/// verbatim after `> `, and its `publishedDate`, `img_src` and `score`
/// (every field it has, non-string values as JSON text), and last a
/// `### Suggestions` list when the response has suggestions.
pub fn build_search_markdown(query: &str, pruned: &JsonValue, max_results: usize) -> (md: String)
    ensures
        md@ == search_markdown(pruned@, max_results as nat),
{
    let _ = query;
    let mut out = String::new();
    let q = match pruned.get("query") {
        Some(x) => match x.as_str() {
            Some(t) => t,
            None => "",
        },
        None => "",
    };
    out.append("# search: ");
    out.append(q);
    out.append("\n\n");
    let empty: Vec<JsonValue> = Vec::new();
    let results: &Vec<JsonValue> = match pruned.get("results") {
        Some(x) => match x.as_array() {
            Some(a) => a,
            None => &empty,
        },
        None => &empty,
    };
    let ghost rs = json_models(results@);
    proof {
        lemma_json_models(results@);
        lemma_json_models(empty@);
        assert(rs == results_of(pruned@));
    }
    let n = results.len();
    out.append("## Results (");
    let count = u64_to_decimal(n as u64);
    out.append(count.as_str());
    out.append(")\n\n");
    let ghost head = out@;
    let limit = if max_results < n {
        max_results
    } else {
        n
    };
    assert(rs.take(0) =~= Seq::<Json>::empty());
    let mut i: usize = 0;
    while i < limit
        invariant
            limit <= n,
            n == results.len(),
            i <= limit,
            rs == json_models(results@),
            rs.len() == n,
            forall|k: int| 0 <= k < n ==> #[trigger] rs[k] == results@[k]@,
            out@ == head + items_markdown(rs.take(i as int)),
        decreases limit - i,
    {
        proof {
            assert(rs.take(i + 1).drop_last() =~= rs.take(i as int));
            assert(rs.take(i + 1).last() == rs[i as int]);
        }
        push_item(&mut out, &results[i]);
        i = i + 1;
    }
    let ghost before_suggestions = out@;
    let suggestions = match pruned.get("suggestions") {
        Some(x) => x.as_array(),
        None => None,
    };
    match suggestions {
        Some(ss) => {
            if ss.len() > 0 {
                let ghost ms = json_models(ss@);
                proof {
                    lemma_json_models(ss@);
                    assert(ms.take(0) =~= Seq::<Json>::empty());
                }
                out.append("### Suggestions\n\n");
                let ghost lines_start = out@;
                let m = ss.len();
                let mut j: usize = 0;
                while j < m
                    invariant
                        m == ss.len(),
                        j <= m,
                        ms == json_models(ss@),
                        ms.len() == m,
                        forall|k: int| 0 <= k < m ==> #[trigger] ms[k] == ss@[k]@,
                        out@ == lines_start + suggestion_lines(ms.take(j as int)),
                    decreases m - j,
                {
                    proof {
                        assert(ms.take(j + 1).drop_last() =~= ms.take(j as int));
                        assert(ms.take(j + 1).last() == ms[j as int]);
                    }
                    match ss[j].as_str() {
                        Some(t) => {
                            out.append("- ");
                            out.append(t);
                            out.append("\n");
                        },
                        None => {},
                    }
                    assert(out@ =~= lines_start + suggestion_lines(ms.take(j + 1)));
                    j = j + 1;
                }
                assert(ms.take(m as int) =~= ms);
                out.append("\n");
            }
        },
        None => {},
    }
    assert(out@ =~= before_suggestions + suggestions_markdown(pruned@));
    assert(out@ =~= search_markdown(pruned@, max_results as nat));
    out
}

} // verus!

verus! {

/// The Markdown of a list of results starts with the Markdown of the results
/// before position `i` followed by that of the result at `i`.
proof fn lemma_items_prefix(xs: Seq<Json>, i: int)
    requires
        0 <= i < xs.len(),
    ensures
        ({
            let p = items_markdown(xs.take(i)) + item_markdown(xs[i]);
            p.len() <= items_markdown(xs).len() && items_markdown(xs).take(p.len() as int) == p
        }),
    decreases xs.len(),
{
    let s = xs.drop_last();
    let p = items_markdown(xs.take(i)) + item_markdown(xs[i]);
    if i == xs.len() - 1 {
        assert(s =~= xs.take(i));
        assert(items_markdown(xs) =~= p);
        assert(items_markdown(xs).take(p.len() as int) =~= p);
    } else {
        lemma_items_prefix(s, i);
        assert(s.take(i) =~= xs.take(i));
        assert(s[i] == xs[i]);
        assert(items_markdown(xs).take(p.len() as int) =~= items_markdown(s).take(p.len() as int));
    }
}

/// Whether `part` stands in `whole` at some position.
pub open spec fn occurs_in(part: Seq<char>, whole: Seq<char>) -> bool {
    exists|k: int|
        0 <= k && k + part.len() <= whole.len() && #[trigger] whole.subrange(k, k + part.len())
            == part
}

/// A text that stands in a part of a text stands in the whole text.
proof fn lemma_occurs_trans(a: Seq<char>, b: Seq<char>, c: Seq<char>)
    requires
        occurs_in(a, b),
        occurs_in(b, c),
    ensures
        occurs_in(a, c),
{
    let i = choose|i: int| 0 <= i && i + a.len() <= b.len() && #[trigger] b.subrange(i, i + a.len()) == a;
    let j = choose|j: int| 0 <= j && j + b.len() <= c.len() && #[trigger] c.subrange(j, j + b.len()) == b;
    assert forall|t: int| 0 <= t < a.len() implies #[trigger] c.subrange(i + j, i + j + a.len())[t]
        == a[t] by {
        assert(c[j + i + t] == c.subrange(j, j + b.len())[i + t]);
        assert(b[i + t] == b.subrange(i, i + a.len())[t]);
    }
    assert(c.subrange(i + j, i + j + a.len()) =~= a);
}

/// The middle part of a three-part text stands in it.
proof fn lemma_occurs_middle(x: Seq<char>, m: Seq<char>, y: Seq<char>)
    ensures
        occurs_in(m, x + m + y),
{
    let w = x + m + y;
    assert(w.subrange(x.len() as int, (x.len() + m.len()) as int) =~= m);
}

/// Each of the first `max_results` results is rendered in the Markdown.
pub proof fn law_markdown_lists_result(pruned: Json, max_results: nat, i: int)
    requires
        0 <= i < results_of(pruned).len(),
        i < max_results,
    ensures
        occurs_in(item_markdown(results_of(pruned)[i]), search_markdown(pruned, max_results)),
{
    let rs = results_of(pruned);
    let l = listed_count(rs.len(), max_results) as int;
    let listed = rs.take(l);
    lemma_items_prefix(listed, i);
    assert(listed[i] == rs[i]);
    let item = item_markdown(rs[i]);
    let head = "# search: "@ + str_or(pruned, "query"@, ""@) + "\n\n"@ + "## Results ("@ + decimal(
        rs.len(),
    ) + ")\n\n"@;
    let before = items_markdown(listed.take(i));
    let md = search_markdown(pruned, max_results);
    assert(md =~= head + items_markdown(listed) + suggestions_markdown(pruned));
    let k: int = (head.len() + before.len()) as int;
    let body = items_markdown(listed);
    let p = before + item;
    assert(body.take(p.len() as int) == p);
    assert forall|j: int| 0 <= j < item.len() implies #[trigger] md.subrange(k, k + item.len())[j]
        == item[j] by {
        assert(md[k + j] == body[before.len() + j]);
        assert(body[before.len() + j] == body.take(p.len() as int)[before.len() + j]);
        assert(p[before.len() + j] == item[j]);
    }
    assert(md.subrange(k, k + item.len()) =~= item);
}

/// A text stands in itself.
proof fn lemma_occurs_self(t: Seq<char>)
    ensures
        occurs_in(t, t),
{
    let z: int = 0;
    assert(t.subrange(z, z + t.len()) =~= t);
}

/// What stands in the left part stands in the whole.
proof fn lemma_occurs_left(t: Seq<char>, a: Seq<char>, b: Seq<char>)
    requires
        occurs_in(t, a),
    ensures
        occurs_in(t, a + b),
{
    let i = choose|i: int| 0 <= i && i + t.len() <= a.len() && #[trigger] a.subrange(i, i + t.len()) == t;
    assert((a + b).subrange(i, i + t.len()) =~= a.subrange(i, i + t.len()));
}

/// What stands in the right part stands in the whole.
proof fn lemma_occurs_right(t: Seq<char>, a: Seq<char>, b: Seq<char>)
    requires
        occurs_in(t, b),
    ensures
        occurs_in(t, a + b),
{
    let i = choose|i: int| 0 <= i && i + t.len() <= b.len() && #[trigger] b.subrange(i, i + t.len()) == t;
    assert((a + b).subrange(a.len() + i, a.len() + i + t.len()) =~= b.subrange(i, i + t.len()));
}

/// What stands in an indented line stands in the Markdown of the result.
proof fn lemma_item_parts(r: Json, t: Seq<char>)
    ensures
        occurs_in(t, item_heading(r)) ==> occurs_in(t, item_markdown(r)),
        occurs_in(t, indented(r, "snippet"@, "  "@)) ==> occurs_in(t, item_markdown(r)),
        occurs_in(t, indented(r, "content"@, "  > "@)) ==> occurs_in(t, item_markdown(r)),
        occurs_in(t, indented(r, "publishedDate"@, "  **publishedDate**: "@)) ==> occurs_in(
            t,
            item_markdown(r),
        ),
        occurs_in(t, indented(r, "img_src"@, "  **img_src**: "@)) ==> occurs_in(t, item_markdown(r)),
        occurs_in(t, score_line(r)) ==> occurs_in(t, item_markdown(r)),
{
    let h = item_heading(r);
    let sn = indented(r, "snippet"@, "  "@);
    let co = indented(r, "content"@, "  > "@);
    let pd = indented(r, "publishedDate"@, "  **publishedDate**: "@);
    let im = indented(r, "img_src"@, "  **img_src**: "@);
    let sc = score_line(r);
    if occurs_in(t, h) {
        lemma_occurs_left(t, h, sn);
        lemma_occurs_left(t, h + sn, co);
        lemma_occurs_left(t, h + sn + co, pd);
        lemma_occurs_left(t, h + sn + co + pd, im);
        lemma_occurs_left(t, h + sn + co + pd + im, sc);
    }
    if occurs_in(t, sn) {
        lemma_occurs_right(t, h, sn);
        lemma_occurs_left(t, h + sn, co);
        lemma_occurs_left(t, h + sn + co, pd);
        lemma_occurs_left(t, h + sn + co + pd, im);
        lemma_occurs_left(t, h + sn + co + pd + im, sc);
    }
    if occurs_in(t, co) {
        lemma_occurs_right(t, h + sn, co);
        lemma_occurs_left(t, h + sn + co, pd);
        lemma_occurs_left(t, h + sn + co + pd, im);
        lemma_occurs_left(t, h + sn + co + pd + im, sc);
    }
    if occurs_in(t, pd) {
        lemma_occurs_right(t, h + sn + co, pd);
        lemma_occurs_left(t, h + sn + co + pd, im);
        lemma_occurs_left(t, h + sn + co + pd + im, sc);
    }
    if occurs_in(t, im) {
        lemma_occurs_right(t, h + sn + co + pd, im);
        lemma_occurs_left(t, h + sn + co + pd + im, sc);
    }
    if occurs_in(t, sc) {
        lemma_occurs_right(t, h + sn + co + pd + im, sc);
    }
}

/// The shown value of an indented line stands in it.
proof fn lemma_indented_shows(r: Json, k: Seq<char>, lead: Seq<char>, v: Json)
    requires
        json_get(r, k) == Some(v),
    ensures
        occurs_in(field_text(v), indented(r, k, lead)),
{
    lemma_occurs_middle(lead, field_text(v), "\n\n"@);
}

/// Every kept field that a result has is shown in its Markdown.
pub proof fn lemma_item_shows_field(r: Json, k: Seq<char>, v: Json)
    requires
        kept_fields().contains(k),
        json_get(r, k) == Some(v),
    ensures
        occurs_in(shown_text(k, v), item_markdown(r)),
{
    let t = shown_text(k, v);
    let names = kept_fields();
    let idx = choose|i: int| 0 <= i < names.len() && names[i] == k;
    reveal_strlit("url");
    reveal_strlit("title");
    reveal_strlit("content");
    reveal_strlit("snippet");
    reveal_strlit("publishedDate");
    reveal_strlit("img_src");
    reveal_strlit("score");
    if idx < 6 {
        assert(k != "score"@) by {
            if idx == 1 {
                assert(k == "title"@);
                assert("title"@[0] != "score"@[0]);
            } else {
                assert(k.len() != "score"@.len());
            }
        }
        assert(t == field_text(v));
    } else {
        assert(t == json_text(v));
    }
    lemma_item_parts(r, t);
    let nl = "\n\n"@;
    let title = text_or(r, "title"@, "(no title)"@);
    let url = text_or(r, "url"@, ""@);
    if idx == 0 {
        assert(k == "url"@);
        assert(url == t);
        lemma_occurs_self(t);
        lemma_occurs_right(t, "- **"@ + title + "** \u{2014} "@, url);
        lemma_occurs_left(t, "- **"@ + title + "** \u{2014} "@ + url, nl);
    } else if idx == 1 {
        assert(k == "title"@);
        assert(title == t);
        lemma_occurs_self(t);
        lemma_occurs_right(t, "- **"@, title);
        lemma_occurs_left(t, "- **"@ + title, "** \u{2014} "@);
        lemma_occurs_left(t, "- **"@ + title + "** \u{2014} "@, url);
        lemma_occurs_left(t, "- **"@ + title + "** \u{2014} "@ + url, nl);
    } else if idx == 2 {
        lemma_indented_shows(r, "content"@, "  > "@, v);
    } else if idx == 3 {
        lemma_indented_shows(r, "snippet"@, "  "@, v);
    } else if idx == 4 {
        lemma_indented_shows(r, "publishedDate"@, "  **publishedDate**: "@, v);
    } else if idx == 5 {
        lemma_indented_shows(r, "img_src"@, "  **img_src**: "@, v);
    } else {
        lemma_occurs_middle("  **score**: "@, json_text(v), nl);
    }
}

/// Every kept field of each of the first `max_results` results is shown in
/// the Markdown: the score as JSON text, any other string as it is, any
/// other value as its JSON text.
pub proof fn law_markdown_shows_field(pruned: Json, max_results: nat, i: int, k: Seq<char>, v: Json)
    requires
        0 <= i < results_of(pruned).len(),
        i < max_results,
        kept_fields().contains(k),
        json_get(results_of(pruned)[i], k) == Some(v),
    ensures
        occurs_in(shown_text(k, v), search_markdown(pruned, max_results)),
{
    law_markdown_lists_result(pruned, max_results, i);
    lemma_item_shows_field(results_of(pruned)[i], k, v);
    lemma_occurs_trans(
        shown_text(k, v),
        item_markdown(results_of(pruned)[i]),
        search_markdown(pruned, max_results),
    );
}

/// The `content` of each listed result appears verbatim in the Markdown.
pub proof fn law_markdown_content_verbatim(pruned: Json, max_results: nat, i: int, c: Seq<char>)
    requires
        0 <= i < results_of(pruned).len(),
        i < max_results,
        opt_str(json_get(results_of(pruned)[i], "content"@)) == Some(c),
    ensures
        occurs_in(c, search_markdown(pruned, max_results)),
{
    assert(kept_fields()[2] == "content"@);
    reveal_strlit("content");
    reveal_strlit("score");
    assert("content"@.len() != "score"@.len());
    law_markdown_shows_field(pruned, max_results, i, "content"@, Json::Str(c));
}

/// Once a response is pruned, every field of each of its first
/// `max_results` results is shown in its Markdown.
pub proof fn law_pruned_markdown_shows_fields(
    raw: Json,
    max_results: nat,
    i: int,
    k: Seq<char>,
    v: Json,
)
    requires
        0 <= i < results_of(pruned_output(raw)).len(),
        i < max_results,
        json_get(results_of(pruned_output(raw))[i], k) == Some(v),
    ensures
        occurs_in(shown_text(k, v), search_markdown(pruned_output(raw), max_results)),
{
    let p = pruned_output(raw);
    law_pruned_top_level(raw, "results"@);
    reveal_strlit("results");
    reveal_strlit("number_of_results");
    reveal_strlit("unresponsive_engines");
    assert("results"@.len() == 7);
    assert("number_of_results"@.len() == 17);
    assert("unresponsive_engines"@.len() == 20);
    assert(!dropped_top_key("results"@));
    match opt_array(json_get(raw, "results"@)) {
        None => {
            assert(results_of(p).len() == 0);
        },
        Some(rs) => {
            let dead = unresponsive_of(raw);
            assert(results_of(p) == pruned_results(rs, dead));
            law_pruned_results_from_sources(rs, dead);
            let pr = pruned_results(rs, dead);
            let j = choose|j: int|
                0 <= j < rs.len() && !from_dead_engine(rs[j], dead) && rs[j] is Object
                    && #[trigger] pr[i] == Json::Object(selected_fields(rs[j]));
            law_pruned_result_fields(rs[j], k);
            law_markdown_shows_field(p, max_results, i, k, v);
        },
    }
}

/// Asking for one more result, while there are more, adds exactly the
/// Markdown of the next result.
pub proof fn law_markdown_one_more(pruned: Json, m: nat)
    requires
        m < results_of(pruned).len(),
    ensures
        search_markdown(pruned, m + 1).len() == search_markdown(pruned, m).len() + item_markdown(
            results_of(pruned)[m as int],
        ).len(),
        occurs_in(item_markdown(results_of(pruned)[m as int]), search_markdown(pruned, m + 1)),
{
    let rs = results_of(pruned);
    assert(rs.take(m as int + 1).drop_last() =~= rs.take(m as int));
    assert(rs.take(m as int + 1).last() == rs[m as int]);
    law_markdown_lists_result(pruned, m + 1, m as int);
}

/// Asking for at least as many results as there are lists them all: the
/// Markdown is the same for every such limit.
pub proof fn law_markdown_all_listed(pruned: Json, m: nat)
    requires
        m >= results_of(pruned).len(),
    ensures
        search_markdown(pruned, m) == search_markdown(pruned, results_of(pruned).len()),
{
}

/// With a limit of zero no result is listed: the Markdown is the headings
/// and the suggestions.
pub proof fn law_markdown_none_listed(pruned: Json)
    ensures
        search_markdown(pruned, 0) == "# search: "@ + str_or(pruned, "query"@, ""@) + "\n\n"@
            + "## Results ("@ + decimal(results_of(pruned).len()) + ")\n\n"@
            + suggestions_markdown(pruned),
{
    assert(results_of(pruned).take(0) =~= Seq::<Json>::empty());
    assert(items_markdown(Seq::<Json>::empty()) =~= Seq::<char>::empty());
    assert(search_markdown(pruned, 0) =~= "# search: "@ + str_or(pruned, "query"@, ""@) + "\n\n"@
        + "## Results ("@ + decimal(results_of(pruned).len()) + ")\n\n"@ + suggestions_markdown(
        pruned,
    ));
}

/// Each result follows the documented layout: a bullet with the bold title
/// (or `(no title)`), a dash and the URL; then, indented, the snippet, the
/// content quoted with `>`, and the labelled date, image and score.
pub proof fn law_markdown_item_layout(r: Json)
    ensures
        item_markdown(r).len() >= ("- **"@ + text_or(r, "title"@, "(no title)"@) + "** \u{2014} "@
            + text_or(r, "url"@, ""@) + "\n\n"@).len(),
        item_markdown(r).subrange(
            0,
            ("- **"@ + text_or(r, "title"@, "(no title)"@) + "** \u{2014} "@ + text_or(r, "url"@, ""@)
                + "\n\n"@).len() as int,
        ) == "- **"@ + text_or(r, "title"@, "(no title)"@) + "** \u{2014} "@ + text_or(r, "url"@, ""@)
            + "\n\n"@,
        json_get(r, "snippet"@) matches Some(v) ==> occurs_in(
            "  "@ + field_text(v) + "\n\n"@,
            item_markdown(r),
        ),
        json_get(r, "content"@) matches Some(v) ==> occurs_in(
            "  > "@ + field_text(v) + "\n\n"@,
            item_markdown(r),
        ),
        json_get(r, "publishedDate"@) matches Some(v) ==> occurs_in(
            "  **publishedDate**: "@ + field_text(v) + "\n\n"@,
            item_markdown(r),
        ),
        json_get(r, "img_src"@) matches Some(v) ==> occurs_in(
            "  **img_src**: "@ + field_text(v) + "\n\n"@,
            item_markdown(r),
        ),
        json_get(r, "score"@) matches Some(v) ==> occurs_in(
            "  **score**: "@ + json_text(v) + "\n\n"@,
            item_markdown(r),
        ),
{
    let h = item_heading(r);
    let rest = indented(r, "snippet"@, "  "@) + indented(r, "content"@, "  > "@) + indented(
        r,
        "publishedDate"@,
        "  **publishedDate**: "@,
    ) + indented(r, "img_src"@, "  **img_src**: "@) + score_line(r);
    assert(item_markdown(r) =~= h + rest);
    assert((h + rest).subrange(0, h.len() as int) =~= h);
    lemma_occurs_self(indented(r, "snippet"@, "  "@));
    lemma_occurs_self(indented(r, "content"@, "  > "@));
    lemma_occurs_self(indented(r, "publishedDate"@, "  **publishedDate**: "@));
    lemma_occurs_self(indented(r, "img_src"@, "  **img_src**: "@));
    lemma_occurs_self(score_line(r));
    lemma_item_parts(r, indented(r, "snippet"@, "  "@));
    lemma_item_parts(r, indented(r, "content"@, "  > "@));
    lemma_item_parts(r, indented(r, "publishedDate"@, "  **publishedDate**: "@));
    lemma_item_parts(r, indented(r, "img_src"@, "  **img_src**: "@));
    lemma_item_parts(r, score_line(r));
}

/// The line of the suggestion at position `i` stands in the lines.
proof fn lemma_suggestion_line(ss: Seq<Json>, i: int, t: Seq<char>)
    requires
        0 <= i < ss.len(),
        json_str(ss[i]) == Some(t),
    ensures
        occurs_in("- "@ + t + "\n"@, suggestion_lines(ss)),
    decreases ss.len(),
{
    let s = ss.drop_last();
    let line = "- "@ + t + "\n"@;
    let last_line = match json_str(ss.last()) {
        Some(u) => "- "@ + u + "\n"@,
        None => Seq::<char>::empty(),
    };
    assert(suggestion_lines(ss) == suggestion_lines(s) + last_line);
    if i == ss.len() - 1 {
        assert(ss.last() == ss[i]);
        lemma_occurs_self(line);
        lemma_occurs_right(line, suggestion_lines(s), last_line);
    } else {
        assert(s[i] == ss[i]);
        lemma_suggestion_line(s, i, t);
        lemma_occurs_left(line, suggestion_lines(s), last_line);
    }
}

/// Every suggestion that is a string is listed in the Markdown as a bullet
/// line `- suggestion`.
pub proof fn law_markdown_lists_suggestions(pruned: Json, max_results: nat, ss: Seq<Json>, i: int, t: Seq<char>)
    requires
        opt_array(json_get(pruned, "suggestions"@)) == Some(ss),
        0 <= i < ss.len(),
        json_str(ss[i]) == Some(t),
    ensures
        occurs_in("- "@ + t + "\n"@, search_markdown(pruned, max_results)),
{
    let line = "- "@ + t + "\n"@;
    lemma_suggestion_line(ss, i, t);
    let sm = suggestions_markdown(pruned);
    assert(sm == "### Suggestions\n\n"@ + suggestion_lines(ss) + "\n"@);
    lemma_occurs_right(line, "### Suggestions\n\n"@, suggestion_lines(ss));
    lemma_occurs_left(line, "### Suggestions\n\n"@ + suggestion_lines(ss), "\n"@);
    let rs = results_of(pruned);
    let before = "# search: "@ + str_or(pruned, "query"@, ""@) + "\n\n"@ + "## Results ("@ + decimal(
        rs.len(),
    ) + ")\n\n"@ + items_markdown(rs.take(listed_count(rs.len(), max_results) as int));
    assert(search_markdown(pruned, max_results) == before + sm);
    lemma_occurs_right(line, before, sm);
}

} // verus!
