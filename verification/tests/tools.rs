use poe2openai::chat::{
    ChatCompletionRequest, Config, ExtraBody, GoogleConfig, GoogleThinkingConfig, ImageUrlContent,
    Message, ModelConfig, OpenAiContent, OpenAiContentItem, StreamOptions, ThinkingConfig,
    ToolResultContent,
};
use poe2openai::content::get_text_from_openai_content;
use poe2openai::request::{
    assemble_chat_request, count_message_tokens, create_chat_request, openai_message_to_poe,
    process_message_content_with_suffixes, resolve_model, role_override, should_replace_response,
};
use poe2openai::tokens::{count_completion_tokens, count_tokens};
use poe2openai::tools::{
    extract_tool_call_id, filter_tools_for_poe, validate_tool_sequence, ToolSequenceError,
};
use poe2openai::upstream::{ChatTool, ChatToolCall, FunctionCall, FunctionDefinition};

fn message(role: &str, content: &str) -> Message {
    Message {
        role: role.to_string(),
        name: None,
        content: Some(OpenAiContent::Text(content.to_string())),
        tool_calls: None,
        tool_call_id: None,
    }
}

fn call(id: &str, name: &str) -> ChatToolCall {
    ChatToolCall {
        id: id.to_string(),
        kind: "function".to_string(),
        function: FunctionCall { name: name.to_string(), arguments: "{}".to_string() },
    }
}

fn assistant_with_calls(calls: Vec<ChatToolCall>) -> Message {
    Message {
        role: "assistant".to_string(),
        name: None,
        content: None,
        tool_calls: Some(calls),
        tool_call_id: None,
    }
}

fn tool_message(id: Option<&str>, content: &str) -> Message {
    Message {
        role: "tool".to_string(),
        name: None,
        content: Some(OpenAiContent::Text(content.to_string())),
        tool_calls: None,
        tool_call_id: id.map(|s| s.to_string()),
    }
}

fn request() -> ChatCompletionRequest {
    ChatCompletionRequest {
        model: "m".to_string(),
        messages: vec![],
        stop: None,
        stream: None,
        tools: None,
        stream_options: None,
        reasoning_effort: None,
        thinking: None,
        extra_body: None,
    }
}

fn tool(name: &str, description: Option<&str>) -> ChatTool {
    ChatTool {
        kind: "function".to_string(),
        function: FunctionDefinition {
            name: name.to_string(),
            description: description.map(|d| d.to_string()),
            parameters: None,
        },
    }
}

fn config(enable: bool, models: Vec<(&str, ModelConfig)>) -> Config {
    Config {
        enable: Some(enable),
        models: models.into_iter().map(|(k, v)| (k.to_string(), v)).collect(),
        custom_models: None,
        api_token: None,
        use_v1_api: None,
    }
}

#[test]
fn filter_tools_preserves_entries_without_description() {
    let tool = ChatTool {
        kind: "function".to_string(),
        function: FunctionDefinition {
            name: "search".to_string(),
            description: None,
            parameters: None,
        },
    };

    let filtered = filter_tools_for_poe(&Some(vec![tool.copy()])).expect("tool should remain");
    assert_eq!(filtered.len(), 1);
    assert_eq!(filtered[0].function.name, "search");
}

#[test]
fn filter_tools_drops_entries_without_name() {
    let mut tool = ChatTool::default();
    tool.function.name = String::new();

    assert!(filter_tools_for_poe(&Some(vec![tool])).is_none());
}

#[test]
fn filter_tools_keeps_order_and_drops_blank_names() {
    let kept = filter_tools_for_poe(&Some(vec![
        tool("a", Some("d")),
        tool("   ", None),
        tool("b", None),
    ]))
    .expect("tools");
    assert_eq!(kept.len(), 2);
    assert_eq!(kept[0].function.name, "a");
    assert_eq!(kept[1].function.name, "b");
    assert!(filter_tools_for_poe(&None).is_none());
}

#[test]
fn tool_call_id_is_read_from_json_or_text() {
    assert_eq!(
        extract_tool_call_id("{\"tool_call_id\": \"call_1\", \"x\": 2}").as_deref(),
        Some("call_1")
    );
    assert_eq!(extract_tool_call_id("the tool_call_id is \"abc\" here").as_deref(), Some("abc"));
    assert_eq!(extract_tool_call_id("tool_call_id: \"unterminated"), None);
    assert_eq!(extract_tool_call_id("nothing here"), None);
    assert_eq!(extract_tool_call_id("{\"tool_call_id\": 7}"), None);
    assert_eq!(extract_tool_call_id("{\"tool_call_id\": 7, \"b\": 1}").as_deref(), Some(": 7, "));
}

#[test]
fn tool_messages_must_answer_calls() {
    let ok = vec![
        message("user", "hi"),
        assistant_with_calls(vec![call("c1", "search")]),
        tool_message(Some("c1"), "result"),
    ];
    assert!(validate_tool_sequence(&ok).is_ok());

    let unknown = vec![
        assistant_with_calls(vec![call("c1", "search")]),
        tool_message(Some("c2"), "result"),
    ];
    match validate_tool_sequence(&unknown) {
        Err(ToolSequenceError::UnknownId { tool_call_id }) => assert_eq!(tool_call_id, "c2"),
        other => panic!("unexpected: {:?}", other),
    }

    let no_calls = vec![message("user", "hi"), tool_message(Some("c1"), "r"), tool_message(None, "r")];
    match validate_tool_sequence(&no_calls) {
        Err(ToolSequenceError::NoToolCalls { tool_messages }) => assert_eq!(tool_messages, 2),
        other => panic!("unexpected: {:?}", other),
    }

    let missing = vec![
        assistant_with_calls(vec![call("c1", "search")]),
        tool_message(None, "no id in here"),
    ];
    match validate_tool_sequence(&missing) {
        Err(e @ ToolSequenceError::MissingId { .. }) => assert_eq!(
            e.message(),
            "Tool message missing tool_call_id field and cannot extract from content: no id in here"
        ),
        other => panic!("unexpected: {:?}", other),
    }

    assert!(validate_tool_sequence(&vec![message("user", "hi")]).is_ok());
}

#[test]
fn tool_call_id_may_come_from_the_content() {
    let messages = vec![
        assistant_with_calls(vec![call("c9", "search")]),
        tool_message(None, "{\"tool_call_id\":\"c9\",\"value\":1}"),
    ];
    assert!(validate_tool_sequence(&messages).is_ok());
}

#[test]
fn a_call_made_later_in_the_conversation_counts() {
    let messages = vec![
        tool_message(Some("c1"), "result"),
        assistant_with_calls(vec![call("c1", "search")]),
    ];
    assert!(validate_tool_sequence(&messages).is_ok());
}

#[test]
fn unknown_id_message_names_the_id() {
    let e = ToolSequenceError::UnknownId { tool_call_id: "zz".to_string() };
    assert_eq!(e.message(), "Tool message references unknown tool_call_id: zz");
}

#[test]
fn suffixes_are_appended_in_order() {
    let mut req = request();
    req.tools = Some(vec![tool("search", None), tool("calc", Some("adds")), tool("web", Some(""))]);
    req.thinking = Some(ThinkingConfig { budget_tokens: Some(2048) });
    req.reasoning_effort = Some("high".to_string());
    assert_eq!(
        process_message_content_with_suffixes("hello", &req),
        "hello --search --web --thinking_budget 2048 --reasoning_effort high"
    );
}

#[test]
fn suffixes_are_appended_again_on_a_second_run() {
    let mut req = request();
    req.reasoning_effort = Some("low".to_string());
    let once = process_message_content_with_suffixes("q", &req);
    let twice = process_message_content_with_suffixes(&once, &req);
    assert_eq!(once, "q --reasoning_effort low");
    assert_eq!(twice, "q --reasoning_effort low --reasoning_effort low");
    let plain = request();
    let once = process_message_content_with_suffixes("q", &plain);
    assert_eq!(process_message_content_with_suffixes(&once, &plain), once);
}

#[test]
fn thinking_budget_sources_and_limits() {
    let mut req = request();
    req.extra_body = Some(ExtraBody {
        google: Some(GoogleConfig {
            thinking_config: Some(GoogleThinkingConfig { thinking_budget: Some(0) }),
        }),
    });
    assert_eq!(process_message_content_with_suffixes("x", &req), "x --thinking_budget 0");
    req.thinking = Some(ThinkingConfig { budget_tokens: None });
    assert_eq!(process_message_content_with_suffixes("x", &req), "x --thinking_budget 0");
    req.thinking = Some(ThinkingConfig { budget_tokens: Some(7) });
    assert_eq!(process_message_content_with_suffixes("x", &req), "x --thinking_budget 7");
    req.thinking = Some(ThinkingConfig { budget_tokens: Some(-1) });
    assert_eq!(process_message_content_with_suffixes("x", &req), "x");
    req.thinking = Some(ThinkingConfig { budget_tokens: Some(i32::MAX) });
    assert_eq!(process_message_content_with_suffixes("x", &req), "x --thinking_budget 2147483647");
}

#[test]
fn thinking_budget_falls_back_to_the_extra_body() {
    let mut req = request();
    req.thinking = Some(ThinkingConfig { budget_tokens: None });
    req.extra_body = Some(ExtraBody {
        google: Some(GoogleConfig {
            thinking_config: Some(GoogleThinkingConfig { thinking_budget: Some(5) }),
        }),
    });
    assert_eq!(process_message_content_with_suffixes("q", &req), "q --thinking_budget 5");
    req.thinking = None;
    assert_eq!(process_message_content_with_suffixes("q", &req), "q --thinking_budget 5");
    req.extra_body = Some(ExtraBody { google: Some(GoogleConfig { thinking_config: None }) });
    assert_eq!(process_message_content_with_suffixes("q", &req), "q");
}

#[test]
fn invalid_reasoning_effort_is_dropped() {
    let mut req = request();
    req.reasoning_effort = Some("extreme".to_string());
    assert_eq!(process_message_content_with_suffixes("x", &req), "x");
    req.reasoning_effort = Some("medium".to_string());
    assert_eq!(process_message_content_with_suffixes("x", &req), "x --reasoning_effort medium");
}

#[test]
fn roles_are_remapped() {
    assert_eq!(role_override("assistant", false).as_deref(), Some("bot"));
    assert_eq!(role_override("developer", false).as_deref(), Some("user"));
    assert_eq!(role_override("tool", false).as_deref(), Some("user"));
    assert_eq!(role_override("system", true).as_deref(), Some("user"));
    assert_eq!(role_override("system", false), None);
    assert_eq!(role_override("user", true), None);
}

#[test]
fn message_is_flattened() {
    let msg = Message {
        role: "assistant".to_string(),
        name: None,
        content: Some(OpenAiContent::Multi(vec![
            OpenAiContentItem::Text { kind: Some("text".to_string()), text: "one".to_string() },
            OpenAiContentItem::ImageUrl {
                kind: None,
                image_url: ImageUrlContent { url: "https://x/y.png".to_string() },
            },
            OpenAiContentItem::InputAudio { kind: Some("input_audio".to_string()) },
            OpenAiContentItem::Text { kind: None, text: "two".to_string() },
        ])),
        tool_calls: Some(vec![ChatToolCall {
            id: "c1".to_string(),
            kind: "function".to_string(),
            function: FunctionCall { name: "search".to_string(), arguments: "{\"q\":1}".to_string() },
        }]),
        tool_call_id: Some("c0".to_string()),
    };
    let out = openai_message_to_poe(&msg, Some("bot".to_string()), None);
    assert_eq!(out.role, "bot");
    assert_eq!(
        out.content,
        "Tool Call ID: c0\none\ntwo\nTool Call: search (c1)\nArguments: {\"q\":1}"
    );
    assert_eq!(out.content_type, "text/markdown");
    let attachments = out.attachments.expect("attachments");
    assert_eq!(attachments.len(), 1);
    assert_eq!(attachments[0].url, "https://x/y.png");
    assert!(attachments[0].content_type.is_none());
}

#[test]
fn message_without_images_has_no_attachments() {
    let out = openai_message_to_poe(&message("user", "hi"), None, None);
    assert_eq!(out.role, "user");
    assert_eq!(out.content, "hi");
    assert!(out.attachments.is_none());
}

#[test]
fn plain_text_of_content() {
    assert_eq!(get_text_from_openai_content(&None), "");
    assert_eq!(get_text_from_openai_content(&Some(OpenAiContent::Text("a\nb".to_string()))), "a\nb");
    let multi = OpenAiContent::Multi(vec![
        OpenAiContentItem::Text { kind: None, text: "say \"hi\"\nnow".to_string() },
        OpenAiContentItem::ToolResult {
            kind: None,
            id: None,
            tool_call_id: None,
            content: ToolResultContent::Text("done".to_string()),
        },
        OpenAiContentItem::ToolResult {
            kind: None,
            id: None,
            tool_call_id: None,
            content: ToolResultContent::Json("{\"a\":1}".to_string()),
        },
        OpenAiContentItem::ToolResult {
            kind: None,
            id: None,
            tool_call_id: None,
            content: ToolResultContent::Null,
        },
        OpenAiContentItem::Other { kind: Some("x".to_string()), text: Some("other".to_string()) },
        OpenAiContentItem::Other { kind: None, text: None },
    ]);
    assert_eq!(
        get_text_from_openai_content(&Some(multi)),
        "say \"hi\"\\nnow\ndone\n{\"a\":1}\nother"
    );
}

#[test]
fn content_item_accessors() {
    let text = OpenAiContentItem::Text { kind: Some("text".to_string()), text: "t".to_string() };
    assert_eq!(text.content_type(), Some("text"));
    assert_eq!(text.as_text(), Some("t"));
    assert!(text.as_image_url().is_none());
    let image = OpenAiContentItem::ImageUrl {
        kind: None,
        image_url: ImageUrlContent { url: "u".to_string() },
    };
    assert_eq!(image.content_type(), None);
    assert_eq!(image.as_text(), None);
    assert_eq!(image.as_image_url().map(|i| i.url.as_str()), Some("u"));
    let mut image = image;
    if let Some(content) = image.as_image_url_mut() {
        content.url = "v".to_string();
    }
    assert_eq!(image.as_image_url().map(|i| i.url.as_str()), Some("v"));
    let mut text = OpenAiContentItem::Text { kind: None, text: "t".to_string() };
    assert!(text.as_image_url_mut().is_none());
    let other = OpenAiContentItem::Other { kind: Some("k".to_string()), text: Some("o".to_string()) };
    assert_eq!(other.content_type(), Some("k"));
    assert_eq!(other.as_text(), Some("o"));
}

#[test]
fn upstream_request_is_assembled() {
    let messages = vec![
        message("system", "be brief"),
        message("user", "search it"),
        assistant_with_calls(vec![call("c1", "search"), call("c1", "again"), call("c2", "fetch")]),
        tool_message(Some("c1"), "found"),
        tool_message(None, "nothing to see"),
        tool_message(Some("c3"), "stray"),
        message("user", "go on"),
    ];
    let mut req = request();
    req.tools = Some(vec![tool("search", None), tool("", Some("x"))]);
    req.stop = Some(vec!["END".to_string()]);
    req.reasoning_effort = Some("low".to_string());
    let cfg = config(
        true,
        vec![("Model-A", ModelConfig { mapping: None, replace_response: Some(true), enable: None })],
    );
    let out = create_chat_request("model-a", &messages, &req, &cfg);
    assert_eq!(out.version, "1.1");
    assert_eq!(out.kind, "query");
    assert_eq!(out.user_id, "");
    assert_eq!(out.conversation_id, "");
    assert_eq!(out.message_id, "");
    let roles: Vec<&str> = out.query.iter().map(|m| m.role.as_str()).collect();
    assert_eq!(roles, vec!["user", "user", "bot", "user", "user", "user", "user"]);
    assert_eq!(out.query[1].content, "search it");
    assert_eq!(
        out.query[2].content,
        "Tool Call: search (c1)\nArguments: {}\nTool Call: again (c1)\nArguments: {}\nTool Call: fetch (c2)\nArguments: {}"
    );
    assert_eq!(out.query[3].content, "Tool Call ID: c1\nfound");
    assert_eq!(out.query[6].content, "go on --search --reasoning_effort low");
    let tools = out.tools.expect("tools");
    assert_eq!(tools.len(), 1);
    assert_eq!(tools[0].function.name, "search");
    let calls = out.tool_calls.expect("tool calls");
    assert_eq!(calls.iter().map(|c| c.id.as_str()).collect::<Vec<_>>(), vec!["c1", "c2"]);
    assert_eq!(calls[0].function.name, "search");
    let results = out.tool_results.expect("tool results");
    assert_eq!(results.len(), 2);
    assert_eq!(results[0].role, "tool");
    assert_eq!(results[0].tool_call_id, "c1");
    assert_eq!(results[0].name, "search");
    assert_eq!(results[0].content, "found");
    assert_eq!(results[1].tool_call_id, "c3");
    assert_eq!(results[1].name, "unknown");
    assert_eq!(out.stop_sequences, Some(vec!["END".to_string()]));
}

#[test]
fn suffixes_go_to_a_final_user_message_only() {
    let mut req = request();
    req.reasoning_effort = Some("high".to_string());
    let cfg = Config::fallback();
    let ends_with_assistant = vec![message("user", "q"), message("assistant", "a")];
    let out = create_chat_request("m", &ends_with_assistant, &req, &cfg);
    assert_eq!(out.query[0].content, "q");
    assert_eq!(out.query[1].content, "a");
    assert!(out.tool_calls.is_none());
    assert!(out.tool_results.is_none());
    assert!(out.tools.is_none());
    let system_stays = vec![message("system", "s"), message("user", "q")];
    let out = create_chat_request("m", &system_stays, &req, &cfg);
    assert_eq!(out.query[0].role, "system");
    assert_eq!(out.query[1].content, "q --reasoning_effort high");
}

#[test]
fn assembly_validates_first() {
    let req = request();
    let cfg = Config::fallback();
    let bad = vec![assistant_with_calls(vec![call("c1", "f")]), tool_message(Some("nope"), "r")];
    assert!(matches!(
        assemble_chat_request("m", &bad, &req, &cfg),
        Err(ToolSequenceError::UnknownId { .. })
    ));
    let good = vec![assistant_with_calls(vec![call("c1", "f")]), tool_message(Some("c1"), "r")];
    let out = assemble_chat_request("m", &good, &req, &cfg).expect("request");
    assert_eq!(out.query.len(), 2);
}

#[test]
fn model_alias_resolves_to_the_original() {
    let cfg = config(
        true,
        vec![
            ("other", ModelConfig { mapping: None, replace_response: None, enable: None }),
            ("X", ModelConfig { mapping: Some("Y".to_string()), replace_response: None, enable: None }),
        ],
    );
    let (display, original) = resolve_model(&cfg, "Y");
    assert_eq!(display, "Y");
    assert_eq!(original, "X");
    let (display, original) = resolve_model(&cfg, "y");
    assert_eq!((display.as_str(), original.as_str()), ("y", "X"));
    let (display, original) = resolve_model(&cfg, "unmapped");
    assert_eq!((display.as_str(), original.as_str()), ("unmapped", "unmapped"));
    let off = config(
        false,
        vec![("X", ModelConfig { mapping: Some("Y".to_string()), replace_response: None, enable: None })],
    );
    let (display, original) = resolve_model(&off, "Y");
    assert_eq!((display.as_str(), original.as_str()), ("Y", "Y"));
}

#[test]
fn replace_response_is_looked_up_without_regard_to_case() {
    let cfg = config(
        true,
        vec![("Llama-3", ModelConfig { mapping: None, replace_response: Some(true), enable: None })],
    );
    assert!(should_replace_response(&cfg, "llama-3"));
    assert!(should_replace_response(&cfg, "LLAMA-3"));
    assert!(!should_replace_response(&cfg, "gpt"));
}

#[test]
fn request_flags() {
    let mut req = request();
    assert!(!req.wants_stream());
    assert!(!req.wants_usage());
    req.stream = Some(true);
    req.stream_options = Some(StreamOptions { include_usage: Some(true) });
    assert!(req.wants_stream());
    assert!(req.wants_usage());
    req.stream_options = Some(StreamOptions { include_usage: None });
    assert!(!req.wants_usage());
}

#[test]
fn tokens_are_counted() {
    assert_eq!(count_tokens(""), 0);
    assert_eq!(count_tokens("Hello world"), 2);
    assert_eq!(count_completion_tokens("Hello world"), 2);
    let messages = vec![message("user", "Hello world"), message("assistant", "")];
    assert_eq!(count_message_tokens(&messages), 4 + 2 + 4 + 0 + 2);
    assert_eq!(count_message_tokens(&vec![]), 2);
}
