use searx_search::text::{i64_to_decimal, trim, trim_trailing_slashes, u64_to_decimal};
use searx_search::{
    build_pruned_output, build_search_markdown, parse_args, render_json, request_failed, respond,
    response_not_json, serialize_failed, status_error, JsonNumber, JsonValue, SearchOutput,
    SearxSearchTool, ZeptoError,
};

fn to_lib(v: &serde_json::Value) -> JsonValue {
    match v {
        serde_json::Value::Null => JsonValue::Null,
        serde_json::Value::Bool(b) => JsonValue::Bool(*b),
        serde_json::Value::Number(n) => {
            if let Some(u) = n.as_u64() {
                JsonValue::Number(JsonNumber::PosInt(u))
            } else if let Some(i) = n.as_i64() {
                JsonValue::Number(JsonNumber::NegInt(i))
            } else {
                JsonValue::Number(JsonNumber::Float(n.to_string()))
            }
        }
        serde_json::Value::String(s) => JsonValue::String(s.clone()),
        serde_json::Value::Array(a) => JsonValue::Array(a.iter().map(to_lib).collect()),
        serde_json::Value::Object(m) => {
            JsonValue::Object(m.iter().map(|(k, v)| (k.clone(), to_lib(v))).collect())
        }
    }
}

fn parse(text: &str) -> JsonValue {
    to_lib(&serde_json::from_str::<serde_json::Value>(text).expect("valid JSON"))
}

fn message(e: ZeptoError) -> String {
    match e {
        ZeptoError::Tool(m) => m,
    }
}

#[test]
fn trim_removes_surrounding_whitespace() {
    assert_eq!(trim("  rust lang \t\n"), "rust lang");
    assert_eq!(trim("\u{A0}x\u{3000}"), "x");
    assert_eq!(trim("   "), "");
    assert_eq!(trim(""), "");
}

#[test]
fn trailing_slashes_are_removed() {
    assert_eq!(trim_trailing_slashes("https://example.com///"), "https://example.com");
    assert_eq!(trim_trailing_slashes("https://example.com"), "https://example.com");
    assert_eq!(trim_trailing_slashes("///"), "");
}

#[test]
fn decimal_rendering_matches_to_string() {
    for n in [0u64, 7, 10, 99, 100, 12345, u64::MAX] {
        assert_eq!(u64_to_decimal(n), n.to_string());
    }
    for n in [0i64, -1, -42, 42, i64::MIN, i64::MAX] {
        assert_eq!(i64_to_decimal(n), n.to_string());
    }
}

#[test]
fn value_accessors() {
    let v = parse(r#"{"a": 1, "b": "x", "c": [true, null], "d": -3, "e": 1.5}"#);
    assert_eq!(v.get("a").and_then(|x| x.as_u64()), Some(1));
    assert_eq!(v.get("b").and_then(|x| x.as_str()), Some("x"));
    assert_eq!(v.get("d").and_then(|x| x.as_u64()), None);
    assert_eq!(v.get("e").and_then(|x| x.as_u64()), None);
    assert!(v.get("missing").is_none());
    let c = v.get("c").expect("c");
    assert!(c.is_array());
    assert_eq!(c.get_index(0), Some(&JsonValue::Bool(true)));
    assert_eq!(c.get_index(2), None);
    assert!(c.get("a").is_none());
    assert!(v.get_index(0).is_none());
}

#[test]
fn first_entry_wins_on_lookup() {
    let v = JsonValue::Object(vec![
        ("k".to_string(), JsonValue::Number(JsonNumber::PosInt(1))),
        ("k".to_string(), JsonValue::Number(JsonNumber::PosInt(2))),
    ]);
    assert_eq!(v.get("k").and_then(|x| x.as_u64()), Some(1));
}

#[test]
fn render_json_is_compact_json() {
    let v = JsonValue::Object(vec![
        ("s".to_string(), JsonValue::String("a\"b\\c\n".to_string())),
        (
            "a".to_string(),
            JsonValue::Array(vec![
                JsonValue::Null,
                JsonValue::Bool(false),
                JsonValue::Number(JsonNumber::NegInt(-7)),
                JsonValue::Number(JsonNumber::Float("0.92".to_string())),
            ]),
        ),
        ("o".to_string(), JsonValue::Object(vec![])),
    ]);
    assert_eq!(
        render_json(&v),
        r#"{"s":"a\"b\\c\n","a":[null,false,-7,0.92],"o":{}}"#
    );
    assert_eq!(render_json(&JsonValue::Array(vec![])), "[]");
    assert_eq!(
        render_json(&JsonValue::String("\u{1}\u{8}\t\u{c}\r\u{1f}/\u{7f}\u{e9}".to_string())),
        "\"\\u0001\\b\\t\\f\\r\\u001f/\u{7f}\u{e9}\""
    );
    assert_eq!(render_json(&JsonValue::Number(JsonNumber::PosInt(1))), "1");
}

#[test]
fn deep_clone_keeps_the_value() {
    let v = parse(r#"{"a": [1, {"b": "c"}], "d": 2.5}"#);
    assert_eq!(v.deep_clone(), v);
}

#[test]
fn pruning_filters_unresponsive_engines() {
    let raw = parse(
        r#"{
        "query": "q",
        "number_of_results": 3,
        "results": [
            {"url": "u1", "title": "t1", "engine": "brave", "score": 2},
            {"url": "u2", "title": "t2", "engine": "google", "thumbnail": "x", "snippet": "s"},
            {"url": "u3", "engine": 5},
            "not an object"
        ],
        "unresponsive_engines": [["brave", "timeout"], [7, "bad"], "odd"],
        "suggestions": ["a"]
    }"#,
    );
    let pruned = build_pruned_output("q", &raw, 6);
    // serde_json orders object members by key, so the top level comes in that order.
    assert_eq!(
        render_json(&pruned),
        r#"{"query":"q","results":[{"url":"u2","title":"t2","snippet":"s"},{"url":"u3"}],"suggestions":["a"]}"#
    );
}

#[test]
fn pruning_keeps_fields_in_fixed_order() {
    let raw = parse(
        r#"{"results": [{"score": 1, "img_src": "", "publishedDate": "d", "snippet": "s",
            "content": "c", "title": "t", "url": "u", "category": "general"}]}"#,
    );
    let pruned = build_pruned_output("", &raw, 1);
    let r0 = &pruned.get("results").and_then(|r| r.as_array()).expect("results")[0];
    match r0 {
        JsonValue::Object(entries) => {
            let keys: Vec<&str> = entries.iter().map(|(k, _)| k.as_str()).collect();
            assert_eq!(
                keys,
                vec!["url", "title", "content", "snippet", "publishedDate", "img_src", "score"]
            );
        }
        _ => panic!("result must be an object"),
    }
}

#[test]
fn pruning_without_results_array_drops_meta_keys() {
    let raw = parse(r#"{"number_of_results": 0, "unresponsive_engines": [["x", "y"]], "results": 4}"#);
    assert_eq!(render_json(&build_pruned_output("q", &raw, 6)), r#"{"results":4}"#);
    let raw = parse(r#"{"query": "x", "number_of_results": 0, "unresponsive_engines": [["brave", "timeout"]]}"#);
    let out = build_pruned_output("x", &raw, 6);
    assert!(out.get("number_of_results").is_none());
    assert!(out.get("unresponsive_engines").is_none());
    assert_eq!(out.get("query").and_then(|q| q.as_str()), Some("x"));
    let not_object = parse(r#"[1, 2]"#);
    assert_eq!(build_pruned_output("q", &not_object, 6), not_object);
}

#[test]
fn pruning_twice_equals_pruning_once() {
    let raw = parse(
        r#"{"results": [{"url": "u", "engine": "e", "positions": [1]}, {"title": "t", "engine": "dead"}],
            "unresponsive_engines": [["dead", "timeout"]], "number_of_results": 9, "answers": []}"#,
    );
    let once = build_pruned_output("q", &raw, 6);
    let twice = build_pruned_output("q", &once, 6);
    assert_eq!(once, twice);
}

#[test]
fn markdown_renders_results_and_suggestions() {
    let pruned = parse(
        r#"{
        "query": "rust",
        "results": [
            {"url": "https://a", "title": "A", "content": "C", "snippet": "S",
             "publishedDate": "2024", "img_src": "", "score": 0.5},
            {"url": "https://b", "img_src": "i.png", "score": "high"},
            {"title": 3}
        ],
        "suggestions": ["s1", 3, "s2"]
    }"#,
    );
    let md = build_search_markdown("ignored", &pruned, 6);
    assert_eq!(
        md,
        "# search: rust\n\n## Results (3)\n\n\
         - **A** \u{2014} https://a\n\n  S\n\n  > C\n\n  **publishedDate**: 2024\n\n  **img_src**: \n\n  **score**: 0.5\n\n\
         - **(no title)** \u{2014} https://b\n\n  **img_src**: i.png\n\n  **score**: \"high\"\n\n\
         - **3** \u{2014} \n\n\
         ### Suggestions\n\n- s1\n- s2\n\n"
    );
}

#[test]
fn markdown_limits_listed_results() {
    let pruned = parse(r#"{"results": [{"title": "a"}, {"title": "b"}, {"title": "c"}], "suggestions": []}"#);
    let md = build_search_markdown("q", &pruned, 2);
    assert_eq!(
        md,
        "# search: \n\n## Results (3)\n\n- **a** \u{2014} \n\n- **b** \u{2014} \n\n"
    );
    let md0 = build_search_markdown("q", &pruned, 0);
    assert_eq!(md0, "# search: \n\n## Results (3)\n\n");
}

#[test]
fn markdown_of_empty_document() {
    let md = build_search_markdown("q", &JsonValue::Null, 6);
    assert_eq!(md, "# search: \n\n## Results (0)\n\n");
}

#[test]
fn new_tool_trims_base_url_and_defaults() {
    let tool = SearxSearchTool::new("https://searx.example.org//", Some("key"));
    assert_eq!(tool.base_url(), "https://searx.example.org");
    assert_eq!(tool.max_results(), 6);
    assert_eq!(tool.compact_description(), "Search (SearxNG)");
}

#[test]
fn with_max_results_clamps() {
    assert_eq!(SearxSearchTool::new("https://x", None).with_max_results(0).max_results(), 1);
    assert_eq!(SearxSearchTool::new("https://x", None).with_max_results(20).max_results(), 20);
    assert_eq!(SearxSearchTool::new("https://x", None).with_max_results(500).max_results(), 50);
}

#[test]
fn parameters_schema_lists_arguments() {
    let tool = SearxSearchTool::new("https://x", None);
    let p = tool.parameters();
    assert_eq!(p.get("type").and_then(|t| t.as_str()), Some("object"));
    let props = p.get("properties").expect("properties");
    for key in ["q", "engines", "categories", "lang", "pageno", "max_results"] {
        assert!(props.get(key).map_or(false, |x| x.is_object()), "{}", key);
    }
    assert_eq!(
        props.get("pageno").and_then(|x| x.get("type")).and_then(|t| t.as_str()),
        Some("integer")
    );
    let required = p.get("required").and_then(|r| r.as_array()).expect("required");
    assert_eq!(required.len(), 1);
    assert_eq!(required[0].as_str(), Some("q"));
}

#[test]
fn args_require_a_query() {
    assert_eq!(message(parse_args(&parse(r#"{}"#), 6).unwrap_err()), "Missing 'q' parameter");
    assert_eq!(message(parse_args(&parse(r#"{"q": "   "}"#), 6).unwrap_err()), "Missing 'q' parameter");
    assert_eq!(message(parse_args(&parse(r#"{"q": 5}"#), 6).unwrap_err()), "Missing 'q' parameter");
}

#[test]
fn args_are_read_and_defaulted() {
    let p = parse_args(&parse(r#"{"q": "  rust  "}"#), 7).expect("ok");
    assert_eq!(p.query, "rust");
    assert_eq!(p.engines, None);
    assert_eq!(p.pageno, 1);
    assert_eq!(p.max_results, 7);
    let p = parse_args(
        &parse(r#"{"q": "x", "engines": " bing ", "lang": "en", "categories": 3, "pageno": 4294967301, "max_results": 0}"#),
        7,
    )
    .expect("ok");
    assert_eq!(p.engines.as_deref(), Some("bing"));
    assert_eq!(p.lang.as_deref(), Some("en"));
    assert_eq!(p.categories, None);
    assert_eq!(p.pageno, 5);
    assert_eq!(p.max_results, 1);
    let p = parse_args(&parse(r#"{"q": "x", "max_results": 99, "pageno": -2}"#), 7).expect("ok");
    assert_eq!(p.max_results, 50);
    assert_eq!(p.pageno, 1);
}

#[test]
fn request_url_and_headers() {
    let tool = SearxSearchTool::new("https://searx.example.org/", Some("secret"));
    let req = tool
        .plan_request(&parse(r#"{"q": "rust lang", "engines": "bing, google", "categories": "", "pageno": 2}"#))
        .expect("planned");
    assert_eq!(
        req.url_text(),
        "https://searx.example.org/search?q=rust+lang&format=json&pageno=2&engines=bing%2C+google"
    );
    assert_eq!(
        req.headers,
        vec![
            ("Accept".to_string(), "application/json".to_string()),
            (
                "User-Agent".to_string(),
                "zeptoclaw/0.1 (+https://github.com/zeptoclaw/zeptoclaw)".to_string()
            ),
            ("Authorization".to_string(), "secret".to_string()),
        ]
    );
    assert_eq!(req.params.max_results, 6);
}

#[test]
fn blank_api_key_sends_no_authorization() {
    let tool = SearxSearchTool::new("https://x.org", Some("  "));
    let req = tool.plan_request(&parse(r#"{"q": "a"}"#)).expect("planned");
    assert_eq!(req.headers.len(), 2);
    assert_eq!(req.url_text(), "https://x.org/search?q=a&format=json&pageno=1");
}

#[test]
fn request_errors_in_order() {
    let blank = SearxSearchTool::new("   ", None);
    assert_eq!(message(blank.plan_request(&parse(r#"{}"#)).err().unwrap()), "Missing 'q' parameter");
    assert_eq!(
        message(blank.plan_request(&parse(r#"{"q": "a"}"#)).err().unwrap()),
        "Searx base_url not configured"
    );
    let bad = SearxSearchTool::new("not a url", None);
    assert_eq!(
        message(bad.plan_request(&parse(r#"{"q": "a"}"#)).err().unwrap()),
        "Invalid base_url: relative URL without a base"
    );
}

#[test]
fn status_errors() {
    assert!(status_error(200, "200 OK", "").is_none());
    assert!(status_error(299, "299 <unknown status code>", "x").is_none());
    assert_eq!(message(status_error(404, "404 Not Found", "  ").unwrap()), "Searx API error: 404 Not Found");
    assert_eq!(
        message(status_error(500, "500 Internal Server Error", " boom \n").unwrap()),
        "Searx API error: 500 Internal Server Error (boom)"
    );
    assert!(status_error(199, "199 <unknown status code>", "").is_some());
}

#[test]
fn other_error_messages() {
    assert_eq!(message(request_failed("timeout")), "Search request failed: timeout");
    assert_eq!(message(response_not_json("eof")), "Failed to parse searx response: eof");
    assert_eq!(message(serialize_failed("x")), "Failed to serialize json: x");
}

#[test]
fn respond_picks_the_format() {
    let raw = parse(r#"{"query": "q", "results": [{"title": "T", "url": "U", "engine": "e"}], "number_of_results": 1}"#);
    let pruned = build_pruned_output("q", &raw, 6);
    assert_eq!(respond("q", &raw, 6, "json"), SearchOutput::Json(pruned));
    assert_eq!(
        respond("q", &raw, 6, "markdown"),
        SearchOutput::Markdown("# search: q\n\n## Results (1)\n\n- **T** \u{2014} U\n\n".to_string())
    );
    assert!(matches!(respond("q", &raw, 6, "JSON"), SearchOutput::Markdown(_)));
}

#[test]
fn markdown_follows_the_documented_layout() {
    let pruned = parse(
        r#"{"results": [{"title": "Asynchronous Programming in Rust",
            "url": "https://doc.rust-lang.org/async-book/",
            "snippet": "Learn about async/await, Futures, and executors...",
            "content": "Full excerpt or snippet preserved verbatim from the page..."}]}"#,
    );
    let md = build_search_markdown("", &pruned, 6);
    assert!(md.contains(
        "- **Asynchronous Programming in Rust** \u{2014} https://doc.rust-lang.org/async-book/\n\n  \
         Learn about async/await, Futures, and executors...\n\n  \
         > Full excerpt or snippet preserved verbatim from the page...\n"
    ));
}

#[test]
fn markdown_shows_non_string_fields() {
    let pruned = parse(r#"{"results": [{"title": 7, "url": ["a", 1], "content": {"k": null}, "snippet": false}]}"#);
    let md = build_search_markdown("", &pruned, 6);
    assert_eq!(
        md,
        "# search: \n\n## Results (1)\n\n- **7** \u{2014} [\"a\",1]\n\n  false\n\n  > {\"k\":null}\n\n"
    );
}
