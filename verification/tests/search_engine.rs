use searx_search::{build_pruned_output, JsonNumber, JsonValue, SearxSearchTool};

fn to_lib(v: &serde_json::Value) -> JsonValue {
    match v {
        serde_json::Value::Null => JsonValue::Null,
        serde_json::Value::Bool(b) => JsonValue::Bool(*b),
        serde_json::Value::Number(n) => {
            if let Some(u) = n.as_u64() {
                JsonValue::Number(JsonNumber::PosInt(u))
            } else if let Some(i) = n.as_i64() {
                JsonValue::Number(JsonNumber::NegInt(i))
            } else {
                JsonValue::Number(JsonNumber::Float(n.to_string()))
            }
        }
        serde_json::Value::String(s) => JsonValue::String(s.clone()),
        serde_json::Value::Array(a) => JsonValue::Array(a.iter().map(to_lib).collect()),
        serde_json::Value::Object(m) => {
            JsonValue::Object(m.iter().map(|(k, v)| (k.clone(), to_lib(v))).collect())
        }
    }
}

#[test]
fn test_parameters_schema() {
    let tool = SearxSearchTool::new("https://example.com", None);
    let params = tool.parameters();
    assert!(params.is_object());
    assert!(params.get("properties").map_or(false, |p| p.is_object()));
}

#[test]
fn test_name_and_description() {
    let tool = SearxSearchTool::new("https://example.com", None);
    assert_eq!(tool.name(), "search_engine");
    assert!(tool.description().len() > 0);
}

#[test]
fn test_deserialize_fixture_with_number_of_results_zero() {
    // Fixture: `number_of_results` is 0 but `results` array contains entries.
        let fixture = r#"
{
  "query": "openclaw latest features",
  "number_of_results": 0,
  "results": [
    {
      "url": "https://openclaw.ai/",
      "title": "OpenClaw — Personal AI Assistant",
      "content": "The AI that actually does things. Clears your inbox, sends emails, manages your calendar, checks you in for flights. All from WhatsApp, Telegram, or any chat ...",
      "thumbnail": null,
      "engine": "google",
      "template": "default.html",
      "parsed_url": [
        "https",
        "openclaw.ai",
        "/",
        "",
        "",
        ""
      ],
      "img_src": "",
      "priority": "",
      "engines": [
        "google"
      ],
      "positions": [1],
      "score": 1,
      "category": "general"
    }
  ],
  "answers": [],
  "corrections": [],
  "infoboxes": [],
  "suggestions": [
    "How do i open clawdbot",
    "Clawdbot hub skills",
    "Clawdbot how to start",
    "Openclaw latest features ios",
    "ClawdBot installation instructions",
    "Moltbot showcase",
    "Clawedbot GitHub",
    "Openclaw latest features reddit"
  ],
  "unresponsive_engines": [
    [
      "brave",
      "timeout"
    ],
    [
      "startpage",
      "Suspended: timeout"
    ],
    [
      "wikidata",
      "Suspended: timeout"
    ]
  ]
}"#;

    // Parse raw fixture so we can exercise pruning logic.
    let raw: serde_json::Value = serde_json::from_str(fixture).expect("should parse fixture");
    let raw = to_lib(&raw);
    // Sanity: original raw has results
    let raw_results = raw
        .get("results")
        .and_then(|v| v.as_array())
        .expect("fixture must have results");
    assert!(
        !raw_results.is_empty(),
        "results should be preserved even if number_of_results is zero"
    );

    // Build pruned output
    let pruned = build_pruned_output("openclaw latest features", &raw, 6);

    let results = pruned
        .get("results")
        .and_then(|v| v.as_array())
        .expect("pruned must have results");
    assert!(!results.is_empty());

    let r0 = &results[0];
    assert_eq!(
        r0.get("title").and_then(|v| v.as_str()),
        Some("OpenClaw — Personal AI Assistant")
    );
    assert_eq!(
        r0.get("url").and_then(|v| v.as_str()),
        Some("https://openclaw.ai/")
    );
    assert!(r0
        .get("content")
        .and_then(|v| v.as_str())
        .unwrap_or("")
        .starts_with("The AI that actually does things."));

    // Removed fields should be absent
    let removed = [
        "thumbnail",
        "engine",
        "template",
        "parsed_url",
        "priority",
        "engines",
        "positions",
        "category",
    ];
    for key in removed.iter() {
        assert!(
            r0.get(*key).is_none(),
            "{} must be removed from results",
            key
        );
    }

    // Top-level `number_of_results` and `unresponsive_engines` must be removed
    assert!(pruned.get("number_of_results").is_none());
    assert!(pruned.get("unresponsive_engines").is_none());

    // Suggestions preserved
    assert!(pruned
        .get("suggestions")
        .and_then(|v| v.as_array())
        .is_some());
}
