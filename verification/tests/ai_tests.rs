use rusty_bots::ai::{
    absorb_voice_response, collect_voices, completion_body, completion_status, finish_voice_listing,
    require_completion_key, require_voices_key, tool_schema, voice_endpoints, ChatMessage, FetchOutcome, VoiceInfo,
};
use rusty_bots::json::Json;

fn s(t: &str) -> Json {
    Json::Str(t.to_string())
}

fn obj(ms: Vec<(&str, Json)>) -> Json {
    Json::Object(ms.into_iter().map(|(k, v)| (k.to_string(), v)).collect())
}

fn labels(v: &[VoiceInfo]) -> Vec<(String, String, String)> {
    v.iter().map(|x| (x.id.clone(), x.label.clone(), x.kind.clone())).collect()
}

#[test]
fn voices_from_bare_array() {
    let mut out = Vec::new();
    collect_voices(&Json::Array(vec![s("eve"), s("leo")]), "built-in", &mut out);
    assert_eq!(labels(&out), vec![
        ("eve".into(), "eve".into(), "built-in".into()),
        ("leo".into(), "leo".into(), "built-in".into()),
    ]);
}

#[test]
fn voices_from_wrapped_objects() {
    let v = obj(vec![
        ("meta", Json::Null),
        ("data", Json::Array(vec![
            obj(vec![("voice_id", s("v1")), ("name", s("Ara")), ("gender", s("female")), ("language", s("en"))]),
            obj(vec![("id", s("v2"))]),
            obj(vec![("name", s("Rex")), ("tone", s("calm"))]),
            obj(vec![("gender", s("male"))]),
            Json::Number("3".to_string()),
        ])),
    ]);
    let mut out = Vec::new();
    collect_voices(&v, "custom", &mut out);
    assert_eq!(labels(&out), vec![
        ("v1".into(), "Ara — female, en (v1)".into(), "custom".into()),
        ("v2".into(), "v2 (v2)".into(), "custom".into()),
        ("Rex".into(), "Rex — calm (Rex)".into(), "custom".into()),
    ]);
}

#[test]
fn voices_key_order() {
    // `voices` is looked at before `data`.
    let v = obj(vec![("data", Json::Array(vec![s("d")])), ("voices", Json::Array(vec![s("v")]))]);
    let mut out = Vec::new();
    collect_voices(&v, "k", &mut out);
    assert_eq!(out.len(), 1);
    assert_eq!(out[0].id, "v");
    let mut none = Vec::new();
    collect_voices(&obj(vec![("voices", s("nope"))]), "k", &mut none);
    assert!(none.is_empty());
}

#[test]
fn voice_listing_outcomes() {
    assert_eq!(require_voices_key("").err().unwrap(), "xAI API key not set");
    assert!(require_voices_key("k").is_ok());
    let eps = voice_endpoints();
    assert_eq!(eps[0], ("https://api.x.ai/v1/tts/voices".to_string(), "built-in".to_string()));
    assert_eq!(eps[1], ("https://api.x.ai/v1/custom-voices".to_string(), "custom".to_string()));

    let mut out = Vec::new();
    let mut last = None;
    absorb_voice_response("built-in", &FetchOutcome::Answered {
        success: false, status: "401 Unauthorized".to_string(), body: "bad key".to_string(), json: None,
    }, &mut out, &mut last);
    assert_eq!(last.as_deref(), Some("built-in 401 Unauthorized: bad key"));
    absorb_voice_response("custom", &FetchOutcome::Failed { error: "timeout".to_string() }, &mut out, &mut last);
    assert_eq!(last.as_deref(), Some("custom: timeout"));
    assert_eq!(finish_voice_listing(out, last.clone()).err().unwrap(), "custom: timeout");

    let mut out = Vec::new();
    absorb_voice_response("built-in", &FetchOutcome::Answered {
        success: true, status: "200 OK".to_string(), body: "[\"eve\"]".to_string(), json: Some(Json::Array(vec![s("eve")])),
    }, &mut out, &mut last);
    assert_eq!(out.len(), 1);
    let r = finish_voice_listing(out, last).unwrap();
    assert_eq!(r[0].id, "eve");
    assert!(finish_voice_listing(Vec::new(), None).unwrap().is_empty());
}

fn member<'a>(j: &'a Json, key: &str) -> &'a Json {
    j.get(key).unwrap()
}

fn text(j: &Json) -> &str {
    j.as_str().unwrap().as_str()
}

#[test]
fn tool_catalogue() {
    let t = tool_schema();
    let tools = t.as_array().unwrap();
    let names: Vec<&str> = tools.iter().map(|x| text(member(member(x, "function"), "name"))).collect();
    assert_eq!(names, vec!["send_message", "react", "kick_user", "ban_user", "timeout_user", "add_role", "remove_role", "join_voice", "leave_voice"]);
    let timeout = &tools[4];
    assert_eq!(text(member(timeout, "type")), "function");
    let params = member(member(timeout, "function"), "parameters");
    assert_eq!(text(member(member(member(params, "properties"), "seconds"), "type")), "integer");
    let req: Vec<&str> = member(params, "required").as_array().unwrap().iter().map(text).collect();
    assert_eq!(req, vec!["user_id", "seconds"]);
    assert!(member(member(&tools[7], "function"), "parameters").get("required").is_none());
}

#[test]
fn completion_request() {
    assert_eq!(require_completion_key("").err().unwrap(), "xAI API key is not set for this bot");
    assert!(require_completion_key("k").is_ok());
    let msgs = vec![ChatMessage { role: "system".to_string(), content: "be a cat".to_string() }];
    let b = completion_body("grok-4.3", &msgs);
    assert_eq!(text(member(&b, "model")), "grok-4.3");
    assert_eq!(text(member(&b, "tool_choice")), "auto");
    let m = &member(&b, "messages").as_array().unwrap()[0];
    assert_eq!((text(member(m, "role")), text(member(m, "content"))), ("system", "be a cat"));
    assert_eq!(member(&b, "tools").as_array().unwrap().len(), 9);
    assert!(completion_status(true, "200 OK", "{}").is_ok());
    assert_eq!(completion_status(false, "500 Internal Server Error", "oops").err().unwrap(), "xAI 500 Internal Server Error: oops");
}
