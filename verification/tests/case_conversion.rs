use liter_llm::case::{camel_to_snake, snake_to_camel};
use liter_llm::json::{to_camel_case_keys, to_snake_case_keys, JsonNumber, JsonValue};

#[test]
fn snake_to_camel_basic() {
    assert_eq!(snake_to_camel("foo_bar"), "fooBar");
    assert_eq!(snake_to_camel("foo_bar_baz"), "fooBarBaz");
}

#[test]
fn snake_to_camel_no_underscores() {
    assert_eq!(snake_to_camel("foobar"), "foobar");
}

#[test]
fn snake_to_camel_leading_underscore_preserved() {
    assert_eq!(snake_to_camel("_foo"), "_foo");
    assert_eq!(snake_to_camel("__foo"), "__foo");
    assert_eq!(snake_to_camel("__init__"), "__init__");
}

#[test]
fn snake_to_camel_consecutive_underscores_collapse() {
    assert_eq!(snake_to_camel("foo__bar"), "fooBar");
}

#[test]
fn snake_to_camel_empty() {
    assert_eq!(snake_to_camel(""), "");
}

#[test]
fn snake_to_camel_openai_fields() {
    assert_eq!(snake_to_camel("prompt_tokens"), "promptTokens");
    assert_eq!(snake_to_camel("completion_tokens"), "completionTokens");
    assert_eq!(snake_to_camel("finish_reason"), "finishReason");
    assert_eq!(snake_to_camel("tool_calls"), "toolCalls");
    assert_eq!(snake_to_camel("tool_call_id"), "toolCallId");
    assert_eq!(snake_to_camel("system_fingerprint"), "systemFingerprint");
    assert_eq!(snake_to_camel("max_tokens"), "maxTokens");
    assert_eq!(snake_to_camel("top_p"), "topP");
}

#[test]
fn camel_to_snake_basic() {
    assert_eq!(camel_to_snake("fooBar"), "foo_bar");
    assert_eq!(camel_to_snake("fooBarBaz"), "foo_bar_baz");
}

#[test]
fn camel_to_snake_no_uppercase() {
    assert_eq!(camel_to_snake("foobar"), "foobar");
}

#[test]
fn camel_to_snake_leading_underscore_preserved() {
    assert_eq!(camel_to_snake("_foo"), "_foo");
}

#[test]
fn camel_to_snake_empty() {
    assert_eq!(camel_to_snake(""), "");
}

#[test]
fn camel_to_snake_openai_fields() {
    assert_eq!(camel_to_snake("promptTokens"), "prompt_tokens");
    assert_eq!(camel_to_snake("completionTokens"), "completion_tokens");
    assert_eq!(camel_to_snake("finishReason"), "finish_reason");
    assert_eq!(camel_to_snake("toolCalls"), "tool_calls");
    assert_eq!(camel_to_snake("toolCallId"), "tool_call_id");
    assert_eq!(camel_to_snake("maxTokens"), "max_tokens");
    assert_eq!(camel_to_snake("topP"), "top_p");
}

#[test]
fn camel_to_snake_acronym() {
    assert_eq!(camel_to_snake("parseJSON"), "parse_json");
}

#[test]
fn round_trip_snake_through_camel() {
    let cases = ["prompt_tokens", "finish_reason", "tool_call_id", "max_tokens", "top_p"];
    for s in cases {
        assert_eq!(camel_to_snake(&snake_to_camel(s)), s, "round-trip failed for {s}");
    }
}

// ─── further cases ───────────────────────────────────────────────────────

#[test]
fn snake_to_camel_trailing_underscores_kept() {
    assert_eq!(snake_to_camel("foo__"), "foo__");
    assert_eq!(snake_to_camel("___"), "___");
    assert_eq!(snake_to_camel("a_b_"), "aB_");
}

#[test]
fn snake_to_camel_digit_after_underscore() {
    assert_eq!(snake_to_camel("a_1"), "a1");
}

#[test]
fn snake_to_camel_non_ascii() {
    assert_eq!(snake_to_camel("stra_ße"), "straSSe");
    assert_eq!(snake_to_camel("x_é"), "xÉ");
}

#[test]
fn camel_to_snake_acronym_then_word() {
    assert_eq!(camel_to_snake("HTTPServer"), "http_server");
    assert_eq!(camel_to_snake("aBCd"), "a_b_cd");
    assert_eq!(camel_to_snake("getHTTP"), "get_http");
}

#[test]
fn camel_to_snake_leading_capital() {
    assert_eq!(camel_to_snake("Foo"), "foo");
    assert_eq!(camel_to_snake("_Foo"), "_foo");
    assert_eq!(camel_to_snake("__fooBar"), "__foo_bar");
}

#[test]
fn camel_to_snake_underscore_before_capital() {
    assert_eq!(camel_to_snake("foo_Bar"), "foo_bar");
}

#[test]
fn camel_to_snake_non_ascii() {
    assert_eq!(camel_to_snake("fooÉté"), "foo_été");
}

#[test]
fn round_trip_keeps_underscored_edges() {
    for s in ["__init__", "_private_field", "a_bc_d", "x_y", "v2_beta"] {
        assert_eq!(camel_to_snake(&snake_to_camel(s)), s);
    }
}

#[test]
fn round_trip_fails_outside_plain_snake() {
    // a one-letter word followed by another word merges into an acronym
    assert_eq!(camel_to_snake(&snake_to_camel("a_b_c")), "a_bc");
    // a doubled inner underscore collapses
    assert_eq!(camel_to_snake(&snake_to_camel("foo__bar")), "foo_bar");
}

fn num(n: u64) -> JsonValue {
    JsonValue::Number(JsonNumber { text: n.to_string(), unsigned: Some(n) })
}

fn text(s: &str) -> JsonValue {
    JsonValue::Str(s.to_string())
}

fn obj(members: Vec<(&str, JsonValue)>) -> JsonValue {
    JsonValue::Object(members.into_iter().map(|(k, v)| (k.to_string(), v)).collect())
}

fn keys(v: &JsonValue) -> Vec<String> {
    match v {
        JsonValue::Object(ms) => ms.iter().map(|(k, _)| k.clone()).collect(),
        _ => Vec::new(),
    }
}

fn member<'a>(v: &'a JsonValue, key: &str) -> &'a JsonValue {
    v.get(key).expect("member present")
}

#[test]
fn to_camel_case_keys_nested() {
    let input = obj(vec![
        ("prompt_tokens", num(10)),
        (
            "choices",
            JsonValue::Array(vec![obj(vec![
                ("finish_reason", text("stop")),
                ("message", obj(vec![("tool_calls", JsonValue::Array(vec![]))])),
            ])]),
        ),
    ]);
    let out = to_camel_case_keys(input);
    assert_eq!(keys(&out), vec!["promptTokens", "choices"]);
    assert_eq!(member(&out, "promptTokens").as_u64(), Some(10));
    let choices = match member(&out, "choices") {
        JsonValue::Array(xs) => xs,
        _ => panic!("choices is an array"),
    };
    assert_eq!(choices.len(), 1);
    assert_eq!(keys(&choices[0]), vec!["finishReason", "message"]);
    assert_eq!(member(&choices[0], "finishReason").as_str(), Some("stop"));
    let message = member(&choices[0], "message");
    assert_eq!(keys(message), vec!["toolCalls"]);
    assert!(matches!(member(message, "toolCalls"), JsonValue::Array(xs) if xs.is_empty()));
}

#[test]
fn to_snake_case_keys_nested() {
    let input = obj(vec![
        ("promptTokens", num(10)),
        (
            "choices",
            JsonValue::Array(vec![obj(vec![
                ("finishReason", text("stop")),
                ("message", obj(vec![("toolCalls", JsonValue::Array(vec![]))])),
            ])]),
        ),
    ]);
    let out = to_snake_case_keys(input);
    assert_eq!(keys(&out), vec!["prompt_tokens", "choices"]);
    assert_eq!(member(&out, "prompt_tokens").as_u64(), Some(10));
    let choices = match member(&out, "choices") {
        JsonValue::Array(xs) => xs,
        _ => panic!("choices is an array"),
    };
    assert_eq!(keys(&choices[0]), vec!["finish_reason", "message"]);
    assert_eq!(member(&choices[0], "finish_reason").as_str(), Some("stop"));
    assert_eq!(keys(member(&choices[0], "message")), vec!["tool_calls"]);
}

#[test]
fn key_conversion_leaves_string_values() {
    let input = obj(vec![("arguments", text("{\"max_tokens\": 1}"))]);
    let out = to_camel_case_keys(input);
    assert_eq!(member(&out, "arguments").as_str(), Some("{\"max_tokens\": 1}"));
}

fn same_doc(a: &JsonValue, b: &JsonValue) -> bool {
    match (a, b) {
        (JsonValue::Null, JsonValue::Null) => true,
        (JsonValue::Bool(x), JsonValue::Bool(y)) => x == y,
        (JsonValue::Number(x), JsonValue::Number(y)) => x.text == y.text && x.unsigned == y.unsigned,
        (JsonValue::Str(x), JsonValue::Str(y)) => x == y,
        (JsonValue::Array(xs), JsonValue::Array(ys)) => {
            xs.len() == ys.len() && xs.iter().zip(ys).all(|(x, y)| same_doc(x, y))
        }
        (JsonValue::Object(ms), JsonValue::Object(ns)) => {
            ms.len() == ns.len() && ms.iter().zip(ns).all(|((k, x), (l, y))| k == l && same_doc(x, y))
        }
        _ => false,
    }
}

fn sample_request() -> JsonValue {
    obj(vec![
        ("max_tokens", num(16)),
        ("top_p", JsonValue::Number(JsonNumber { text: "0.5".to_string(), unsigned: None })),
        ("stream", JsonValue::Bool(false)),
        ("user", JsonValue::Null),
        ("tool_choice", obj(vec![("function_name", text("get_weather"))])),
        ("messages", JsonValue::Array(vec![obj(vec![("tool_call_id", text("c1"))])])),
    ])
}

#[test]
fn key_conversion_round_trips() {
    let original = sample_request();
    let back = to_snake_case_keys(to_camel_case_keys(sample_request()));
    assert!(same_doc(&original, &back));
    let camel = to_camel_case_keys(sample_request());
    assert_eq!(keys(&camel), vec!["maxTokens", "topP", "stream", "user", "toolChoice", "messages"]);
}

#[test]
fn snake_keys_pass_through_snake_conversion() {
    let original = sample_request();
    let converted = to_snake_case_keys(sample_request());
    assert!(same_doc(&original, &converted));
}

#[test]
fn key_lookup_takes_last_member() {
    let v = obj(vec![("a", num(1)), ("b", num(2)), ("a", num(3))]);
    assert_eq!(v.get("a").and_then(|x| x.as_u64()), Some(3));
    assert!(v.get("c").is_none());
    assert!(num(1).get("a").is_none());
    assert_eq!(text("x").as_u64(), None);
    assert_eq!(num(5).as_str(), None);
}

#[test]
fn camel_snake_camel_round_trip() {
    for c in ["fooBarBaz", "toolCallId", "topP", "maxTokens", "a1B2", "x", ""] {
        assert_eq!(snake_to_camel(&camel_to_snake(c)), c);
    }
    assert_eq!(camel_to_snake("toolCallId"), "tool_call_id");
}

#[test]
fn camel_to_snake_twice_changes_nothing() {
    for s in ["fooBarBaz", "HTTPServer", "getHTTPResponse", "_private", "already_snake", "A", "x1Y2", ""] {
        let once = camel_to_snake(s);
        assert_eq!(camel_to_snake(&once), once);
    }
}
