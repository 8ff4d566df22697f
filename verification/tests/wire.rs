//! The wire format: request bodies, the JSON codec, the transcript export
//! round trip, and a cross-check of the codec against serde_json.

use gptshell::chat::ChatCreateCompletionParams;
use gptshell::chat::Message;
use gptshell::chat::export_transcript;
use gptshell::chat::parse_transcript;
use gptshell::completion::CodeCompletionCreateParams;
use gptshell::json::Json;
use gptshell::json::json_to_string;
use gptshell::json::parse_json_text;

fn msg(role: &str, content: &str) -> Message {
    Message { role: Some(role.to_owned()), content: Some(content.to_owned()) }
}

#[test]
fn chat_body_has_the_documented_shape() {
    let params = ChatCreateCompletionParams {
        model: Some("fake-model".to_owned()),
        messages: Some(vec![]),
        temperature: Some(700),
        max_tokens: Some(3000),
    };
    assert_eq!(
        params.to_body(),
        "{\"model\":\"fake-model\",\"messages\":[],\"temperature\":0.7,\"max_tokens\":3000}"
    );
}

#[test]
fn chat_body_carries_the_transcript() {
    let params = ChatCreateCompletionParams {
        model: Some("gpt-4".to_owned()),
        messages: Some(vec![msg("user", "hi")]),
        temperature: Some(50),
        max_tokens: Some(300),
    };
    assert_eq!(
        params.to_body(),
        "{\"model\":\"gpt-4\",\"messages\":[{\"role\":\"user\",\"content\":\"hi\"}],\
         \"temperature\":0.05,\"max_tokens\":300}"
    );
}

#[test]
fn completion_body_has_the_documented_shape() {
    let params = CodeCompletionCreateParams {
        model: "fake-model".to_owned(),
        max_tokens: 3000,
        temperature: 700,
        prompt: vec!["hello!".to_owned()],
    };
    assert_eq!(
        params.to_body(),
        "{\"model\":\"fake-model\",\"prompt\":[\"hello!\"],\"temperature\":0.7,\"max_tokens\":3000}"
    );
}

#[test]
fn export_then_parse_gives_the_messages_back() {
    let msgs = vec![
        msg("user", "line one\nline two"),
        msg("assistant", "quotes \" and backslash \\ and tab \t"),
        Message { role: None, content: Some("role-less".to_owned()) },
        Message { role: Some("user".to_owned()), content: None },
    ];
    let doc = export_transcript(&msgs);
    let back = parse_transcript(&doc).expect("the export parses");
    assert_eq!(back.len(), msgs.len());
    for (a, b) in msgs.iter().zip(back.iter()) {
        assert_eq!(a.role, b.role);
        assert_eq!(a.content, b.content);
    }
}

#[test]
fn export_of_an_empty_transcript_is_an_empty_array() {
    assert_eq!(export_transcript(&vec![]), "[]");
    assert_eq!(parse_transcript("[]").expect("parses").len(), 0);
}

#[test]
fn exported_document_agrees_with_serde_json() {
    let msgs = vec![msg("user", "a \"quoted\" word\nand a second line")];
    let doc = export_transcript(&msgs);
    let value: serde_json::Value = serde_json::from_str(&doc).expect("valid by serde_json too");
    assert_eq!(value[0]["role"], serde_json::Value::String("user".to_owned()));
    assert_eq!(
        value[0]["content"],
        serde_json::Value::String("a \"quoted\" word\nand a second line".to_owned())
    );
}

#[test]
fn parser_reads_whitespace_and_nesting() {
    let text = " { \"a\" : [ 1 , true , null , \"x\" ] , \"b\" : { } } ";
    let parsed = parse_json_text(text).expect("well-formed");
    match &parsed {
        Json::Obj(fields) => {
            assert_eq!(fields.len(), 2);
            assert_eq!(fields[0].0, "a");
            match &fields[0].1 {
                Json::Arr(items) => {
                    assert_eq!(items.len(), 4);
                    assert!(matches!(&items[0], Json::Num(n) if n == "1"));
                    assert!(matches!(&items[1], Json::Bool(true)));
                    assert!(matches!(&items[2], Json::Null));
                    assert!(matches!(&items[3], Json::Str(s) if s == "x"));
                },
                other => panic!("not an array: {:?}", json_to_string(other)),
            }
        },
        other => panic!("not an object: {}", json_to_string(other)),
    }
}

#[test]
fn parser_decodes_escapes() {
    let parsed = parse_json_text("\"a\\n\\t\\\\\\\"\\u0041\\u00e9\\ud83d\\ude00\"")
        .expect("well-formed");
    match parsed {
        Json::Str(s) => assert_eq!(s, "a\n\t\\\"A\u{e9}\u{1F600}"),
        other => panic!("not a string: {}", json_to_string(&other)),
    }
}

#[test]
fn parser_rejects_malformed_documents() {
    assert!(parse_json_text("").is_none());
    assert!(parse_json_text("{").is_none());
    assert!(parse_json_text("[1,]").is_none());
    assert!(parse_json_text("\"unterminated").is_none());
    assert!(parse_json_text("{\"a\":1} trailing").is_none());
    assert!(parse_json_text("\"lone surrogate \\ud800\"").is_none());
}

#[test]
fn emitter_output_is_valid_for_serde_json() {
    let value = Json::Obj(vec![
        ("text".to_owned(), Json::Str("line\nwith \"quotes\" and \u{1}".to_owned())),
        ("flag".to_owned(), Json::Bool(false)),
        ("nothing".to_owned(), Json::Null),
    ]);
    let text = json_to_string(&value);
    let reread: serde_json::Value = serde_json::from_str(&text).expect("valid JSON");
    assert_eq!(
        reread["text"],
        serde_json::Value::String("line\nwith \"quotes\" and \u{1}".to_owned())
    );
    assert_eq!(reread["flag"], serde_json::Value::Bool(false));
    assert!(reread["nothing"].is_null());
}

#[test]
fn parser_and_serde_json_agree_on_a_mixed_document() {
    let text = "{\"nested\":{\"list\":[{\"k\":\"v\"},[],{}],\"n\":null},\"t\":true}";
    let mine = parse_json_text(text).expect("well-formed");
    let theirs: serde_json::Value = serde_json::from_str(text).expect("well-formed");
    // Re-emit ours canonically and let serde_json read it back: the two
    // readings must agree.
    let reemitted = json_to_string(&mine);
    let reread: serde_json::Value = serde_json::from_str(&reemitted).expect("valid JSON");
    assert_eq!(theirs, reread);
}
