use tasks::client::{build_prompt, build_request_body, improved_content, parse_response_chars, ApiOutcome};

fn chars(s: &str) -> Vec<char> {
    s.chars().collect()
}

fn text(v: &[char]) -> String {
    v.iter().collect()
}

#[test]
fn prompt_embeds_raw_task() {
    let p = text(&build_prompt(&chars("buy milk")));
    let expected = "Human: You are a helpful assistant. Take the following raw task and improve it for a markdown task list.\n        Make it clearer and more actionable. Add a single '- [ ] \u{1F4CB}' prefix. Raw task: \"buy milk\"\n\nAssistant:";
    assert_eq!(p, expected);
}

#[test]
fn request_body_decodes_with_serde_json() {
    let raw = "fix \"the\" bug\\now";
    let body = text(&build_request_body(&chars(raw)));
    let v: serde_json::Value = serde_json::from_str(&body).unwrap();
    assert_eq!(v.get("model").unwrap().as_str().unwrap(), "google/gemini-2.0-flash-001");
    assert_eq!(v.get("max_tokens").unwrap().as_u64().unwrap(), 100);
    assert_eq!(
        v.get("prompt").unwrap().as_str().unwrap(),
        text(&build_prompt(&chars(raw)))
    );
}

#[test]
fn request_body_matches_serde_json_exactly() {
    let raw = "tidy \"up\"\\now\u{0007}";
    let body = text(&build_request_body(&chars(raw)));
    let prompt_json = serde_json::to_string(&serde_json::Value::String(text(&build_prompt(
        &chars(raw),
    ))))
    .unwrap();
    let expected = format!(
        "{{\"model\":\"google/gemini-2.0-flash-001\",\"prompt\":{},\"max_tokens\":100}}",
        prompt_json
    );
    assert_eq!(body, expected);
}

#[test]
fn first_choice_is_used_trimmed() {
    let body = "{\"id\":\"cmpl-1\",\"object\":\"text_completion\",\"created\":123,\"model\":\"m\",\"usage\":{\"prompt_tokens\":1,\"completion_tokens\":2,\"total_tokens\":3},\"choices\":[{\"text\":\"\\n\\n- [ ] \\u{44}o it\",\"index\":0,\"finish_reason\":\"stop\"},{\"text\":\"second\",\"index\":1,\"finish_reason\":\"stop\"}]}";
    let body = body.replace("\\u{44}", "D");
    let content = improved_content(&ApiOutcome::Success(chars(&body)), &chars("do it"));
    assert_eq!(text(&content), "- [ ] Do it");
}

#[test]
fn empty_choices_reuse_raw_text() {
    let body = "{\"choices\": []}";
    let content = improved_content(&ApiOutcome::Success(chars(body)), &chars("do it"));
    assert_eq!(text(&content), "do it");
}

#[test]
fn unreadable_body_falls_back_like_transport_failure() {
    let content = improved_content(&ApiOutcome::Success(chars("not json at all")), &chars("do it"));
    assert_eq!(text(&content), "- [ ] \u{1F4CB}do it");
}

#[test]
fn missing_choices_member_falls_back() {
    let content = improved_content(&ApiOutcome::Success(chars("{\"id\": \"x\"}")), &chars("t"));
    assert_eq!(text(&content), "- [ ] \u{1F4CB}t");
}

#[test]
fn choice_without_text_falls_back() {
    let body = "{\"choices\": [{\"index\": 0}]}";
    let content = improved_content(&ApiOutcome::Success(chars(body)), &chars("t"));
    assert_eq!(text(&content), "- [ ] \u{1F4CB}t");
}

#[test]
fn response_texts_come_in_order() {
    let body = "{ \"choices\" : [ {\"text\": \"a\"} , {\"extra\": [1,2], \"text\": \"b\"} ] }";
    let texts = parse_response_chars(&chars(body)).unwrap();
    assert_eq!(texts.len(), 2);
    assert_eq!(text(&texts[0]), "a");
    assert_eq!(text(&texts[1]), "b");
}

#[test]
fn escaped_text_is_decoded() {
    let body = "{\"choices\":[{\"text\":\"caf\\u00e9 \\ud83d\\ude00\"}]}";
    let texts = parse_response_chars(&chars(body)).unwrap();
    assert_eq!(text(&texts[0]), "caf\u{00E9} \u{1F600}");
}

#[test]
fn deeply_nested_unknown_member_is_rejected() {
    let mut nest = String::new();
    for _ in 0..200 {
        nest.push('[');
    }
    for _ in 0..200 {
        nest.push(']');
    }
    let body = format!("{{\"junk\": {}, \"choices\": []}}", nest);
    assert!(parse_response_chars(&chars(&body)).is_none());
}
