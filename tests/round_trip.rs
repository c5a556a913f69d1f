use gemini::client::{resolve_api_key, Gemini, API_HOST, DEFAULT_MODEL};
use gemini::error::GeminiError;
use gemini::request::{
    frame_content, frame_part, frame_request, join_items, request_text, Content, Part, RequestBody,
};
use gemini::response::{reply_texts, Candidate, Response};
use std::sync::Arc;

fn transport() -> Arc<reqwest::Client> {
    Arc::new(reqwest::Client::new())
}

fn candidate(texts: &[&str]) -> Candidate {
    Candidate {
        content: Content {
            parts: texts.iter().map(|t| Part { text: t.to_string() }).collect(),
            role: "model".to_string(),
        },
    }
}

#[test]
fn body_holds_one_user_part_with_the_prompt() {
    let b = RequestBody::for_prompt("Tell me a joke");
    assert_eq!(b.contents.len(), 1);
    assert_eq!(b.contents[0].role, "user");
    assert_eq!(b.contents[0].parts.len(), 1);
    assert_eq!(b.contents[0].parts[0].text, "Tell me a joke");
}

#[test]
fn request_text_is_the_fixed_shape() {
    let t = request_text("hello").unwrap();
    assert_eq!(t, r#"{"contents":[{"parts":[{"text":"hello"}],"role":"user"}]}"#);
}

#[test]
fn request_text_escapes_the_prompt_as_json() {
    let t = request_text("say \"hi\"\n\\ ok").unwrap();
    assert_eq!(
        t,
        r#"{"contents":[{"parts":[{"text":"say \"hi\"\n\\ ok"}],"role":"user"}]}"#
    );
    let back: serde_json::Value = serde_json::from_str(&t).unwrap();
    assert_eq!(back["contents"][0]["parts"][0]["text"], "say \"hi\"\n\\ ok");
}

#[test]
fn request_text_of_empty_prompt() {
    let t = request_text("").unwrap();
    assert_eq!(t, r#"{"contents":[{"parts":[{"text":""}],"role":"user"}]}"#);
}

#[test]
fn body_with_several_contents_and_parts() {
    let b = RequestBody {
        contents: vec![
            Content {
                parts: vec![Part { text: "a".to_string() }, Part { text: "b".to_string() }],
                role: "user".to_string(),
            },
            Content { parts: vec![], role: "model".to_string() },
        ],
    };
    assert_eq!(
        b.to_json().unwrap(),
        r#"{"contents":[{"parts":[{"text":"a"},{"text":"b"}],"role":"user"},{"parts":[],"role":"model"}]}"#
    );
    assert_eq!(RequestBody { contents: vec![] }.to_json().unwrap(), r#"{"contents":[]}"#);
}

#[test]
fn url_without_proxy_goes_to_public_host() {
    let g = Gemini::new(transport(), Some("k1"), None, None, None).unwrap();
    assert_eq!(
        g.url(),
        "https://generativelanguage.googleapis.com/v1beta/models/gemini-1.5-flash:generateContent?key=k1"
    );
    assert!(g.url().starts_with(&format!("https://{}/", API_HOST)));
}

#[test]
fn url_with_proxy_replaces_only_the_host() {
    let direct = Gemini::new(transport(), Some("k1"), None, Some("m2"), None).unwrap();
    let proxied = Gemini::new(transport(), Some("k1"), None, Some("m2"), Some("example.com")).unwrap();
    assert_eq!(
        proxied.url(),
        "https://example.com/v1beta/models/m2:generateContent?key=k1"
    );
    let tail = "/v1beta/models/m2:generateContent?key=k1";
    assert!(direct.url().ends_with(tail));
    assert!(proxied.url().ends_with(tail));
    assert_ne!(direct.url(), proxied.url());
}

#[test]
fn flattening_keeps_candidate_then_part_order() {
    let r = Response { candidates: vec![candidate(&["a", "b"]), candidate(&["c"])] };
    assert_eq!(r.texts(), vec!["a", "b", "c"]);
}

#[test]
fn empty_candidates_give_empty_texts() {
    let r = reply_texts(Ok(Response { candidates: vec![] }));
    assert_eq!(r.unwrap(), Vec::<String>::new());
}

#[test]
fn candidate_without_parts_adds_nothing() {
    let r = Response { candidates: vec![candidate(&[]), candidate(&["x"]), candidate(&[])] };
    assert_eq!(reply_texts(Ok(r)).unwrap(), vec!["x"]);
}

#[test]
fn malformed_reply_is_a_serialization_error() {
    let e = serde_json::from_str::<serde_json::Value>("{\"candidates\": [").unwrap_err();
    match reply_texts(Err(e)) {
        Err(GeminiError::Serialization(_)) => {}
        other => panic!("expected a serialization error, got {:?}", other),
    }
}

#[test]
fn missing_key_fails_construction() {
    assert!(Gemini::new(transport(), None, None, None, None).is_none());
    assert_eq!(resolve_api_key(None, None), None);
}

#[test]
fn given_key_wins_over_environment() {
    assert_eq!(resolve_api_key(Some("arg"), Some("env")), Some("arg".to_string()));
    assert_eq!(resolve_api_key(None, Some("env")), Some("env".to_string()));
    let g = Gemini::new(transport(), None, Some("env"), None, None).unwrap();
    assert!(g.url().ends_with(&format!("/models/{}:generateContent?key=env", DEFAULT_MODEL)));
}

#[test]
fn prepare_gives_url_and_body_each_time() {
    let g = Gemini::new(transport(), Some("k"), None, None, Some("proxy.local")).unwrap();
    let first = g.prepare("ping").unwrap();
    let second = g.prepare("ping").unwrap();
    assert_eq!(first.0, "https://proxy.local/v1beta/models/gemini-1.5-flash:generateContent?key=k");
    assert_eq!(first.1, r#"{"contents":[{"parts":[{"text":"ping"}],"role":"user"}]}"#);
    assert_eq!(first, second);
}

#[test]
fn framing_takes_quoted_texts_verbatim() {
    assert_eq!(frame_part("\"x\""), r#"{"text":"x"}"#);
    let parts = vec![r#"{"text":"a"}"#.to_string(), r#"{"text":"b"}"#.to_string()];
    assert_eq!(
        frame_content(&parts, "\"user\""),
        r#"{"parts":[{"text":"a"},{"text":"b"}],"role":"user"}"#
    );
    assert_eq!(frame_request(&vec![]), r#"{"contents":[]}"#);
    assert_eq!(frame_request(&vec!["{}".to_string()]), r#"{"contents":[{}]}"#);
}

#[test]
fn join_items_separates_with_commas() {
    assert_eq!(join_items(&vec![]), "");
    assert_eq!(join_items(&vec!["a".to_string()]), "a");
    assert_eq!(join_items(&vec!["a".to_string(), "".to_string(), "c".to_string()]), "a,,c");
}

#[test]
fn empty_key_fails_construction() {
    assert!(Gemini::new(transport(), Some(""), None, None, None).is_none());
    assert!(Gemini::new(transport(), None, Some(""), None, None).is_none());
    assert!(Gemini::new(transport(), Some(""), Some("env"), None, None).is_none());
    assert_eq!(resolve_api_key(Some(""), Some("env")), None);
    assert_eq!(resolve_api_key(None, Some("")), None);
}

#[test]
fn control_characters_use_json_escapes() {
    let t = request_text("\u{1}\u{8}\u{c}\r\u{1f} é/").unwrap();
    assert_eq!(
        t,
        r#"{"contents":[{"parts":[{"text":"\u0001\b\f\r\u001f é/"}],"role":"user"}]}"#
    );
}
