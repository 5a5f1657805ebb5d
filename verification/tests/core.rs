use aimind::chat::{build_chat_request, extract_reply};
use aimind::config::{default_config, delete_provider, find_provider, set_current_provider,
upsert_provider};
use aimind::confjson::{config_from_text, config_to_text};
use aimind::expand::{expansion_prompt, parse_expansion};
use aimind::mindmap::{analyze_mindmap, load_mindmap_text, render_json, render_mindmap};
use aimind::{AIConfig, AIProvider, CoreError, JsonValue};

fn provider(id: &str, kind: &str) -> AIProvider {
    AIProvider {
        id: id.to_string(),
        name: format!("{} name", id),
        kind: kind.to_string(),
        api_key: "k".to_string(),
        base_url: "https://api.example.com/v1".to_string(),
        model: "m".to_string(),
        temperature: Some("0.25".to_string()),
        max_tokens: Some(123),
        enabled: true,
    }
}

#[test]
fn default_bootstrap_document() {
    let c = default_config();
    assert_eq!(c.providers.len(), 1);
    let p = &c.providers[0];
    assert_eq!(p.id, "openai-default");
    assert_eq!(p.name, "OpenAI");
    assert_eq!(p.kind, "openai");
    assert_eq!(p.api_key, "");
    assert_eq!(p.base_url, "https://api.openai.com/v1");
    assert_eq!(p.model, "gpt-4o-mini");
    assert_eq!(p.temperature, Some("0.7".to_string()));
    assert_eq!(p.max_tokens, Some(2000));
    assert!(p.enabled);
    assert_eq!(c.current_provider, "openai-default");
}

#[test]
fn default_trait_matches_default_config() {
    assert_eq!(AIConfig::default(), default_config());
}

#[test]
fn upsert_appends_then_replaces_in_place() {
    let mut c = default_config();
    upsert_provider(&mut c, provider("a", "openai"));
    upsert_provider(&mut c, provider("b", "anthropic"));
    assert_eq!(c.providers.len(), 3);
    assert_eq!(c.providers[1].id, "a");
    let mut changed = provider("a", "openai");
    changed.name = "renamed".to_string();
    upsert_provider(&mut c, changed);
    assert_eq!(c.providers.len(), 3);
    assert_eq!(c.providers[1].id, "a");
    assert_eq!(c.providers[1].name, "renamed");
    let ids: Vec<&String> = c.providers.iter().map(|p| &p.id).collect();
    for i in 0..ids.len() {
        for j in (i + 1)..ids.len() {
            assert_ne!(ids[i], ids[j]);
        }
    }
    assert_eq!(c.current_provider, "openai-default");
}

#[test]
fn delete_last_provider_rejected() {
    let mut c = default_config();
    let before = c.clone();
    let r = delete_provider(&mut c, "openai-default");
    match r {
        Err(CoreError::Validation(m)) => {
            assert_eq!(m, "at least one provider required");
        }
        other => panic!("expected a validation error, got {:?}", other),
    }
    assert_eq!(c, before);
}

#[test]
fn delete_reassigns_current_to_first_remaining() {
    let mut c = AIConfig {
        providers: vec![provider("a", "openai"), provider("b", "anthropic")],
        current_provider: "a".to_string(),
    };
    delete_provider(&mut c, "a").unwrap();
    assert_eq!(c.providers.len(), 1);
    assert_eq!(c.providers[0].id, "b");
    assert_eq!(c.current_provider, "b");
}

#[test]
fn delete_of_other_provider_keeps_current() {
    let mut c = AIConfig {
        providers: vec![provider("a", "openai"), provider("b", "anthropic")],
        current_provider: "a".to_string(),
    };
    delete_provider(&mut c, "b").unwrap();
    assert_eq!(c.providers.len(), 1);
    assert_eq!(c.current_provider, "a");
}

#[test]
fn set_current_provider_checks_existence() {
    let mut c = default_config();
    match set_current_provider(&mut c, "missing") {
        Err(CoreError::NotFound(m)) => assert_eq!(m, "Provider not found"),
        other => panic!("expected a not-found error, got {:?}", other),
    }
    assert_eq!(c.current_provider, "openai-default");
    upsert_provider(&mut c, provider("a", "openai"));
    set_current_provider(&mut c, "a").unwrap();
    assert_eq!(c.current_provider, "a");
}

#[test]
fn find_provider_by_id() {
    let mut c = default_config();
    upsert_provider(&mut c, provider("a", "anthropic"));
    assert!(find_provider(&c, "missing").is_none());
    let p = find_provider(&c, "a").unwrap();
    assert_eq!(p.kind, "anthropic");
}

#[test]
fn config_text_round_trip_preserves_fields() {
    let mut bare = provider("bare", "openai");
    bare.temperature = None;
    bare.max_tokens = None;
    bare.enabled = false;
    let c = AIConfig {
        providers: vec![provider("a", "openai"), provider("b", "anthropic"), bare],
        current_provider: "b".to_string(),
    };
    let text = config_to_text(&c).unwrap();
    let back = config_from_text(&text).unwrap();
    assert_eq!(back, c);
}

#[test]
fn config_from_text_rejects_wrong_shapes() {
    assert!(matches!(config_from_text("not json"), Err(CoreError::Parse(_))));
    assert!(matches!(config_from_text("{\"providers\": 5}"), Err(CoreError::Parse(_))));
    assert!(matches!(
        config_from_text("{\"providers\": [], \"current_provider\": 3}"),
        Err(CoreError::Parse(_))
    ));
    assert!(matches!(
        config_from_text("{\"providers\": [{\"id\": \"a\"}], \"current_provider\": \"a\"}"),
        Err(CoreError::Parse(_))
    ));
}

#[test]
fn config_from_text_fills_optional_fields() {
    let text = "{\"providers\": [{\"id\": \"a\", \"name\": \"A\", \"type\": \"openai\", \
                \"api_key\": \"\", \"base_url\": \"u\", \"model\": \"m\", \
                \"temperature\": null, \"enabled\": true}], \"current_provider\": \"a\"}";
    let c = config_from_text(text).unwrap();
    assert_eq!(c.providers[0].temperature, None);
    assert_eq!(c.providers[0].max_tokens, None);
}

#[test]
fn chat_request_anthropic_shape() {
    let p = provider("a", "anthropic");
    let req = build_chat_request(&p, "hello");
    assert_eq!(req.url, "https://api.example.com/v1/chat/completions");
    assert_eq!(
        req.headers,
        vec![
            ("x-api-key".to_string(), "k".to_string()),
            ("anthropic-version".to_string(), "2023-06-01".to_string()),
        ]
    );
    let expected_body = JsonValue::Obj(vec![
        ("model".to_string(), JsonValue::Str("m".to_string())),
        (
            "messages".to_string(),
            JsonValue::Arr(vec![JsonValue::Obj(vec![
                ("role".to_string(), JsonValue::Str("user".to_string())),
                ("content".to_string(), JsonValue::Str("hello".to_string())),
            ])]),
        ),
        ("temperature".to_string(), JsonValue::Num("0.25".to_string())),
        ("max_tokens".to_string(), JsonValue::Num("123".to_string())),
    ]);
    assert_eq!(req.body, expected_body);
}

#[test]
fn chat_request_default_shape_uses_bearer_and_defaults() {
    let mut p = provider("a", "openai");
    p.temperature = None;
    p.max_tokens = None;
    let req = build_chat_request(&p, "hi");
    assert_eq!(
        req.headers,
        vec![("Authorization".to_string(), "Bearer k".to_string())]
    );
    match &req.body {
        JsonValue::Obj(fields) => {
            assert_eq!(fields[2], ("temperature".to_string(), JsonValue::Num("0.7".to_string())));
            assert_eq!(fields[3], ("max_tokens".to_string(), JsonValue::Num("2000".to_string())));
        }
        other => panic!("expected an object body, got {:?}", other),
    }
}

#[test]
fn extract_reply_dispatches_on_kind() {
    let anthropic = "{\"content\": [{\"text\": \"hi\"}]}";
    assert_eq!(extract_reply("anthropic", 200, anthropic).unwrap(), "hi");
    let openai = "{\"choices\": [{\"message\": {\"content\": \"hello\"}}]}";
    assert_eq!(extract_reply("openai", 200, openai).unwrap(), "hello");
    // each kind refuses the other shape
    assert!(matches!(
        extract_reply("anthropic", 200, openai),
        Err(CoreError::EmptyResponse)
    ));
    assert!(matches!(
        extract_reply("openai", 200, anthropic),
        Err(CoreError::EmptyResponse)
    ));
}

#[test]
fn extract_reply_rejects_bad_json_and_missing_text() {
    assert!(matches!(
        extract_reply("openai", 200, "not json"),
        Err(CoreError::Parse(_))
    ));
    assert!(matches!(
        extract_reply("openai", 200, "{\"choices\": []}"),
        Err(CoreError::EmptyResponse)
    ));
    assert!(matches!(
        extract_reply("anthropic", 200, "{\"content\": [{\"text\": 5}]}"),
        Err(CoreError::EmptyResponse)
    ));
}

#[test]
fn upstream_error_carries_status_and_body() {
    let r = extract_reply("openai", 401, "{\"error\":\"bad key\"}");
    match r {
        Err(e @ CoreError::Upstream { .. }) => {
            let msg = e.message();
            assert!(msg.contains("401"));
            assert!(msg.contains("{\"error\":\"bad key\"}"));
        }
        other => panic!("expected an upstream error, got {:?}", other),
    }
}

#[test]
fn expand_parses_json_array_reply() {
    let r = parse_expansion("[\"A topic\", \"B topic\"]");
    assert_eq!(r, vec!["A topic".to_string(), "B topic".to_string()]);
}

#[test]
fn expand_falls_back_to_lines() {
    let r = parse_expansion("first\nsecond\n\n");
    assert_eq!(r, vec!["first".to_string(), "second".to_string()]);
}

#[test]
fn expand_empty_array_falls_back_to_lines() {
    let r = parse_expansion("[]");
    assert_eq!(r, vec!["[]".to_string()]);
}

#[test]
fn expand_array_of_numbers_falls_back() {
    let r = parse_expansion("[1, 2]");
    assert_eq!(r, vec!["[1, 2]".to_string()]);
}

#[test]
fn expand_mixed_array_falls_back_whole() {
    // one non-string element fails the strict tier entirely
    let r = parse_expansion("[\"a\", 1]");
    assert_eq!(r, vec!["[\"a\", 1]".to_string()]);
}

#[test]
fn expansion_prompt_names_the_node() {
    let p = expansion_prompt("Rust");
    assert!(p.contains("\"Rust\""));
    assert!(p.contains("JSON array"));
    assert!(p.contains("4-6"));
}

#[test]
fn mindmap_text_round_trip() {
    let text = "{\"nodes\": [{\"id\": 1, \"label\": \"x\"}], \"pos\": 0.5}";
    let doc = load_mindmap_text(text).unwrap();
    let rendered = render_json(&doc).unwrap();
    let again = load_mindmap_text(&rendered).unwrap();
    assert_eq!(again, doc);
    assert!(rendered.contains("0.5"));
}

#[test]
fn render_json_accepts_only_valid_number_literals() {
    let bad = JsonValue::Num("abc".to_string());
    assert!(matches!(render_json(&bad), Err(CoreError::Parse(_))));
    let good = JsonValue::Num("0.5".to_string());
    assert_eq!(render_json(&good).unwrap(), "0.5");
}

#[test]
fn load_mindmap_text_rejects_invalid_json() {
    match load_mindmap_text("not json") {
        Err(CoreError::Parse(m)) => assert!(m.starts_with("Failed to parse: ")),
        other => panic!("expected a parse error, got {:?}", other),
    }
}

#[test]
fn render_mindmap_requires_a_path() {
    let doc = load_mindmap_text("{}").unwrap();
    match render_mindmap(&doc, None) {
        Err(CoreError::Validation(m)) => assert_eq!(m, "File path required"),
        other => panic!("expected a validation error, got {:?}", other),
    }
    let (path, text) = render_mindmap(&doc, Some("map.json".to_string())).unwrap();
    assert_eq!(path, "map.json");
    assert_eq!(load_mindmap_text(&text).unwrap(), JsonValue::Obj(vec![]));
}

#[test]
fn analyze_mindmap_fixed_result() {
    let doc = load_mindmap_text("{}").unwrap();
    let r = analyze_mindmap(&doc, "any");
    assert_eq!(
        r,
        JsonValue::Obj(vec![
            ("completeness".to_string(), JsonValue::Num("50".to_string())),
            ("suggestions".to_string(), JsonValue::Arr(vec![])),
        ])
    );
}

#[test]
fn decimal_rendering_and_parsing() {
    assert_eq!(aimind::digits::u64_to_string(0), "0");
    assert_eq!(aimind::digits::u64_to_string(12345), "12345");
    assert_eq!(aimind::digits::u64_to_string(u64::MAX), "18446744073709551615");
    assert_eq!(aimind::digits::parse_u64("2000"), Some(2000));
    assert_eq!(aimind::digits::parse_u64("18446744073709551615"), Some(u64::MAX));
    assert_eq!(aimind::digits::parse_u64("18446744073709551616"), None);
    assert_eq!(aimind::digits::parse_u64(""), None);
    assert_eq!(aimind::digits::parse_u64("12a"), None);
    assert_eq!(aimind::digits::parse_u64("-5"), None);
}

#[test]
fn error_messages_render() {
    assert_eq!(CoreError::EmptyResponse.message(), "Empty response");
    assert_eq!(CoreError::Validation("no".to_string()).message(), "no");
    let up = CoreError::Upstream { status: 500, body: "oops".to_string() };
    assert_eq!(up.message(), "API error (500): oops");
}
