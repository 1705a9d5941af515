use poe2openai::context::EventContext;
use poe2openai::events::{Directive, EventHandlerManager};
use poe2openai::openai::{sse_done, sse_frame, ChatCompletionChunk, StreamFrame};
use poe2openai::stream::{OutputGenerator, UpstreamItem};
use poe2openai::thinking::ThinkingProcessor;
use poe2openai::upstream::{
    ChatEventType, ChatResponse, ChatResponseData, ChatToolCall, FileData, FunctionCall,
};

fn generator(include_usage: bool) -> OutputGenerator {
    OutputGenerator::new("abc".to_string(), 1700000000, "gpt-x".to_string(), 11, include_usage)
}

fn text(t: &str) -> UpstreamItem {
    UpstreamItem::Event(ChatResponse {
        event: ChatEventType::Text,
        data: Some(ChatResponseData::Text { text: t.to_string() }),
    })
}

fn replace(t: &str) -> UpstreamItem {
    UpstreamItem::Event(ChatResponse {
        event: ChatEventType::ReplaceResponse,
        data: Some(ChatResponseData::Text { text: t.to_string() }),
    })
}

fn file(inline_ref: &str, url: &str) -> UpstreamItem {
    UpstreamItem::Event(ChatResponse {
        event: ChatEventType::File,
        data: Some(ChatResponseData::File(FileData {
            url: url.to_string(),
            name: "x.png".to_string(),
            content_type: "image/png".to_string(),
            inline_ref: inline_ref.to_string(),
        })),
    })
}

fn tool_calls(id: &str, name: &str, arguments: &str) -> UpstreamItem {
    UpstreamItem::Event(ChatResponse {
        event: ChatEventType::Json,
        data: Some(ChatResponseData::ToolCalls(vec![ChatToolCall {
            id: id.to_string(),
            kind: "function".to_string(),
            function: FunctionCall { name: name.to_string(), arguments: arguments.to_string() },
        }])),
    })
}

fn error(t: &str) -> UpstreamItem {
    UpstreamItem::Event(ChatResponse {
        event: ChatEventType::Error,
        data: Some(ChatResponseData::Error { text: t.to_string(), allow_retry: false }),
    })
}

fn done() -> UpstreamItem {
    UpstreamItem::Event(ChatResponse { event: ChatEventType::Done, data: None })
}

fn chunk(frame: &StreamFrame) -> &ChatCompletionChunk {
    match frame {
        StreamFrame::Chunk(c) => c,
        other => panic!("no chunk: {:?}", other),
    }
}

fn is_role(frame: &StreamFrame) -> bool {
    match frame {
        StreamFrame::Chunk(c) => c.choices[0].delta.role.is_some(),
        _ => false,
    }
}

fn content(frame: &StreamFrame) -> Option<String> {
    chunk(frame).choices[0].delta.content.clone()
}

fn reasoning(frame: &StreamFrame) -> Option<String> {
    chunk(frame).choices[0].delta.reasoning_content.clone()
}

fn finish(frame: &StreamFrame) -> Option<String> {
    chunk(frame).choices[0].finish_reason.clone()
}

#[test]
fn plain_streaming_text() {
    let frames = generator(false).process_stream(&vec![text("Hi "), text("there"), done()]);
    assert_eq!(frames.len(), 5);
    let role = chunk(&frames[0]);
    assert_eq!(role.id, "chatcmpl-abc");
    assert_eq!(role.object, "chat.completion.chunk");
    assert_eq!(role.created, 1700000000);
    assert_eq!(role.model, "gpt-x");
    assert_eq!(role.choices.len(), 1);
    assert_eq!(role.choices[0].index, 0);
    assert_eq!(role.choices[0].delta.role.as_deref(), Some("assistant"));
    assert!(role.choices[0].delta.content.is_none());
    assert!(role.choices[0].finish_reason.is_none());
    assert_eq!(content(&frames[1]).as_deref(), Some("Hi "));
    assert!(finish(&frames[1]).is_none());
    assert_eq!(content(&frames[2]).as_deref(), Some("there"));
    let last = chunk(&frames[3]);
    assert!(last.choices[0].delta.role.is_none());
    assert!(last.choices[0].delta.content.is_none());
    assert!(last.choices[0].delta.reasoning_content.is_none());
    assert!(last.choices[0].delta.tool_calls.is_none());
    assert_eq!(last.choices[0].finish_reason.as_deref(), Some("stop"));
    assert!(last.usage.is_none());
    assert!(matches!(frames[4], StreamFrame::Done));
}

#[test]
fn replace_response_merges_with_next_text() {
    let frames = generator(false)
        .process_stream(&vec![replace("Draft. "), text("Final answer."), done()]);
    assert_eq!(frames.len(), 4);
    assert!(is_role(&frames[0]));
    assert_eq!(content(&frames[1]).as_deref(), Some("Draft. Final answer."));
    assert_eq!(finish(&frames[2]).as_deref(), Some("stop"));
    assert!(matches!(frames[3], StreamFrame::Done));
}

#[test]
fn inline_image_reference_is_resolved_once() {
    let frames = generator(false).process_stream(&vec![
        replace("See [img1] please."),
        file("img1", "https://cdn/x.png"),
        done(),
    ]);
    assert_eq!(frames.len(), 4);
    assert!(is_role(&frames[0]));
    assert_eq!(content(&frames[1]).as_deref(), Some("See (https://cdn/x.png) please."));
    assert_eq!(finish(&frames[2]).as_deref(), Some("stop"));
    assert!(content(&frames[2]).is_none());
    assert!(matches!(frames[3], StreamFrame::Done));
}

#[test]
fn placeholder_known_before_replacement_is_resolved_at_once() {
    let frames = generator(false).process_stream(&vec![
        file("a", "https://cdn/a.png"),
        replace("x [a] y [a]"),
        done(),
    ]);
    assert_eq!(frames.len(), 4);
    assert!(is_role(&frames[0]));
    assert_eq!(content(&frames[1]).as_deref(), Some("x (https://cdn/a.png) y (https://cdn/a.png)"));
    assert_eq!(finish(&frames[2]).as_deref(), Some("stop"));
}

#[test]
fn tool_call_stream() {
    let frames = generator(false)
        .process_stream(&vec![tool_calls("c1", "search", "{\"q\":\"k\"}"), done()]);
    assert_eq!(frames.len(), 4);
    assert!(is_role(&frames[0]));
    let calls = chunk(&frames[1]);
    let list = calls.choices[0].delta.tool_calls.as_ref().expect("tool calls");
    assert_eq!(list.len(), 1);
    assert_eq!(list[0].index, 0);
    assert_eq!(list[0].call.id, "c1");
    assert_eq!(list[0].call.kind, "function");
    assert_eq!(list[0].call.function.name, "search");
    assert_eq!(list[0].call.function.arguments, "{\"q\":\"k\"}");
    assert_eq!(calls.choices[0].finish_reason.as_deref(), Some("tool_calls"));
    assert_eq!(finish(&frames[2]).as_deref(), Some("tool_calls"));
    assert!(matches!(frames[3], StreamFrame::Done));
}

#[test]
fn tool_call_chunks_carry_the_whole_list() {
    let frames = generator(false).process_stream(&vec![
        tool_calls("c1", "search", "{}"),
        tool_calls("c2", "fetch", "{}"),
        done(),
    ]);
    assert_eq!(frames.len(), 5);
    let second = chunk(&frames[2]).choices[0].delta.tool_calls.as_ref().expect("tool calls");
    assert_eq!(second.len(), 2);
    assert_eq!(second[0].call.id, "c1");
    assert_eq!(second[1].call.id, "c2");
    assert_eq!(second[1].index, 1);
}

#[test]
fn thinking_extraction_in_stream() {
    let frames = generator(false).process_stream(&vec![
        text("Prefix *Thinking...*\n> step1\n> step2\nAnswer."),
        done(),
    ]);
    assert_eq!(frames.len(), 6);
    assert!(is_role(&frames[0]));
    assert_eq!(content(&frames[1]).as_deref(), Some("Prefix "));
    assert!(reasoning(&frames[1]).is_none());
    assert_eq!(reasoning(&frames[2]).as_deref(), Some("step1\nstep2\n"));
    assert!(content(&frames[2]).is_none());
    assert_eq!(content(&frames[3]).as_deref(), Some("Answer."));
    assert_eq!(finish(&frames[4]).as_deref(), Some("stop"));
    assert!(matches!(frames[5], StreamFrame::Done));
}

#[test]
fn thinking_trigger_splits_content_and_reasoning() {
    let frames = generator(false)
        .process_stream(&vec![text("A*Thinking...*> foo\n> bar\nZ"), done()]);
    assert_eq!(content(&frames[1]).as_deref(), Some("A"));
    assert_eq!(reasoning(&frames[2]).as_deref(), Some("foo\nbar\n"));
    assert_eq!(content(&frames[3]).as_deref(), Some("Z"));
    for frame in frames.iter() {
        if let StreamFrame::Chunk(c) = frame {
            let d = &c.choices[0].delta;
            assert!(!(d.content.is_some() && d.reasoning_content.is_some()));
        }
    }
}

#[test]
fn thinking_parser_returns_parts() {
    let mut ctx = EventContext::new();
    let parts = ThinkingProcessor::split_text_chunk(&mut ctx, "A*Thinking...*> foo\n> bar\nZ");
    assert_eq!(parts.before.as_deref(), Some("A"));
    assert_eq!(parts.reasoning.as_deref(), Some("foo\nbar"));
    assert_eq!(parts.after.as_deref(), Some("Z"));
    assert_eq!(ctx.content, "AZ");
    assert_eq!(ctx.reasoning_content, "foo\nbar\n");
    assert_eq!(ctx.pending_text, "");
    assert!(ctx.thinking_started);
    assert!(!ctx.in_thinking_mode);
}

#[test]
fn thinking_parser_merges_content_for_the_pair() {
    let mut ctx = EventContext::new();
    let (reasoning, content) =
        ThinkingProcessor::process_text_chunk(&mut ctx, "A*Thinking...*> foo\nZ");
    assert_eq!(reasoning.as_deref(), Some("foo"));
    assert_eq!(content.as_deref(), Some("AZ"));
}

#[test]
fn thinking_parser_keeps_incomplete_line_pending() {
    let mut ctx = EventContext::new();
    let first = ThinkingProcessor::split_text_chunk(&mut ctx, "Thinking...\n> one\n> tw");
    assert!(first.before.is_none());
    assert_eq!(first.reasoning.as_deref(), Some("one"));
    assert!(first.after.is_none());
    assert_eq!(ctx.pending_text, "> tw");
    assert_eq!(ctx.current_reasoning_line, "tw");
    assert!(ctx.in_thinking_mode);
    let second = ThinkingProcessor::split_text_chunk(&mut ctx, "o\nDone");
    assert_eq!(second.reasoning.as_deref(), Some("two"));
    assert_eq!(second.after.as_deref(), Some("Done"));
    assert_eq!(ctx.reasoning_content, "one\ntwo\n");
}

#[test]
fn thinking_parser_keeps_empty_thinking_lines() {
    let mut ctx = EventContext::new();
    let parts = ThinkingProcessor::split_text_chunk(&mut ctx, "*Thinking...*\n> a\n>\n> b\nend");
    assert_eq!(parts.reasoning.as_deref(), Some("a\n\nb"));
    assert_eq!(parts.after.as_deref(), Some("end"));
}

#[test]
fn text_without_marker_is_content() {
    let mut ctx = EventContext::new();
    let parts = ThinkingProcessor::split_text_chunk(&mut ctx, "hello");
    assert_eq!(parts.before.as_deref(), Some("hello"));
    assert!(parts.reasoning.is_none());
    assert!(parts.after.is_none());
    assert_eq!(ctx.content, "hello");
}

#[test]
fn blank_text_stays_pending() {
    let mut ctx = EventContext::new();
    let parts = ThinkingProcessor::split_text_chunk(&mut ctx, "  \n");
    assert!(parts.before.is_none());
    assert_eq!(ctx.pending_text, "  \n");
    assert_eq!(ctx.content, "");
}

#[test]
fn streamed_reasoning_is_sent_as_new_suffix_only() {
    let frames = generator(false).process_stream(&vec![
        text("Thinking...\n> one\n"),
        text("> two\n"),
        text("answer"),
        done(),
    ]);
    assert!(is_role(&frames[0]));
    assert_eq!(reasoning(&frames[1]).as_deref(), Some("one\n"));
    assert_eq!(reasoning(&frames[2]).as_deref(), Some("two\n"));
    assert_eq!(content(&frames[3]).as_deref(), Some("answer"));
    assert_eq!(finish(&frames[4]).as_deref(), Some("stop"));
    assert_eq!(frames.len(), 6);
}

#[test]
fn exactly_one_role_chunk_and_it_comes_first() {
    let frames = generator(true).process_stream(&vec![
        text("a"),
        file("r", "https://cdn/r"),
        tool_calls("c", "f", "{}"),
        text("b"),
        done(),
    ]);
    let roles = frames.iter().filter(|f| is_role(f)).count();
    assert_eq!(roles, 1);
    assert!(is_role(&frames[0]));
    assert!(matches!(frames[frames.len() - 1], StreamFrame::Done));
}

#[test]
fn done_alone_sends_role_final_and_marker() {
    let frames = generator(false).process_stream(&vec![done()]);
    assert_eq!(frames.len(), 3);
    assert!(is_role(&frames[0]));
    assert_eq!(finish(&frames[1]).as_deref(), Some("stop"));
    assert!(matches!(frames[2], StreamFrame::Done));
}

#[test]
fn empty_stream_is_just_the_marker() {
    let frames = generator(false).process_stream(&vec![]);
    assert_eq!(frames.len(), 1);
    assert!(matches!(frames[0], StreamFrame::Done));
}

#[test]
fn events_after_done_are_not_translated() {
    let frames = generator(false).process_stream(&vec![text("a"), done(), text("b")]);
    assert_eq!(frames.len(), 4);
    let finishes = frames
        .iter()
        .filter(|f| matches!(f, StreamFrame::Chunk(c) if c.choices[0].finish_reason.is_some()))
        .count();
    assert_eq!(finishes, 1);
}

#[test]
fn usage_is_attached_only_when_asked_for() {
    let with = generator(true).process_stream(&vec![text("Hello world"), done()]);
    let usage = chunk(&with[2]).usage.expect("usage");
    assert_eq!(usage.prompt_tokens, 11);
    assert_eq!(usage.completion_tokens, 2);
    assert_eq!(usage.total_tokens, 13);
    assert_eq!(usage.cached_tokens, 0);
    let without = generator(false).process_stream(&vec![text("Hello world"), done()]);
    assert!(chunk(&without[2]).usage.is_none());
}

#[test]
fn error_in_the_middle_ends_the_stream() {
    let frames =
        generator(false).process_stream(&vec![text("a"), error("rate limit reached"), text("b")]);
    assert_eq!(frames.len(), 4);
    match &frames[2] {
        StreamFrame::Error(body) => {
            assert_eq!(body.error.message, "rate limit reached");
            assert_eq!(body.error.kind, "rate_limit_exceeded");
            assert_eq!(body.error.code, "rate_limit_exceeded");
            assert!(body.error.param.is_none());
        }
        other => panic!("no error frame: {:?}", other),
    }
    assert!(matches!(frames[3], StreamFrame::Done));
}

#[test]
fn transport_failure_ends_the_stream() {
    let frames = generator(false)
        .process_stream(&vec![UpstreamItem::Failure("boom".to_string()), text("late")]);
    assert_eq!(frames.len(), 2);
    match &frames[0] {
        StreamFrame::Error(body) => {
            assert_eq!(body.error.message, "boom");
            assert_eq!(body.error.kind, "invalid_request");
            assert_eq!(body.error.code, "bad_request");
        }
        other => panic!("no error frame: {:?}", other),
    }
    assert!(matches!(frames[1], StreamFrame::Done));
}

#[test]
fn step_by_step_matches_the_whole() {
    let generator = generator(false);
    let mut ctx = EventContext::new();
    let first = ChatResponse {
        event: ChatEventType::Text,
        data: Some(ChatResponseData::Text { text: "Hi".to_string() }),
    };
    let (frames, finished) = generator.process_event(&mut ctx, &first);
    assert_eq!(frames.len(), 2);
    assert!(!finished);
    assert!(ctx.role_chunk_sent);
    let last = ChatResponse { event: ChatEventType::Done, data: None };
    let (frames, finished) = generator.process_event(&mut ctx, &last);
    assert_eq!(frames.len(), 1);
    assert!(finished);
    assert!(ctx.done);
    assert_eq!(ctx.completion_tokens, 1);
}

#[test]
fn handler_sentinels() {
    let manager = EventHandlerManager::new();
    let mut ctx = EventContext::new();
    let json = ChatResponse {
        event: ChatEventType::Json,
        data: Some(ChatResponseData::ToolCalls(vec![])),
    };
    assert_eq!(manager.handle(&json, &mut ctx).as_deref(), Some("tool_calls"));
    let thinking = ChatResponse {
        event: ChatEventType::Text,
        data: Some(ChatResponseData::Text { text: "Thinking...\n> a\n".to_string() }),
    };
    assert_eq!(manager.handle(&thinking, &mut ctx).as_deref(), Some("__REASONING_DETECTED__"));
    let failed = ChatResponse {
        event: ChatEventType::Error,
        data: Some(ChatResponseData::Error { text: "x".to_string(), allow_retry: true }),
    };
    assert_eq!(manager.handle(&failed, &mut ctx).as_deref(), Some("error"));
    assert_eq!(ctx.error.as_ref().map(|e| e.0), Some(400));
    let end = ChatResponse { event: ChatEventType::Done, data: None };
    assert_eq!(manager.handle(&end, &mut ctx).as_deref(), Some("done"));
    let mismatched = ChatResponse { event: ChatEventType::Text, data: None };
    assert!(manager.handle(&mismatched, &mut ctx).is_none());
}

#[test]
fn file_event_replaces_an_entry_of_the_same_reference() {
    let manager = EventHandlerManager::new();
    let mut ctx = EventContext::new();
    for url in ["https://cdn/1", "https://cdn/2"] {
        let event = ChatResponse {
            event: ChatEventType::File,
            data: Some(ChatResponseData::File(FileData {
                url: url.to_string(),
                name: "n".to_string(),
                content_type: "image/png".to_string(),
                inline_ref: "r".to_string(),
            })),
        };
        assert!(matches!(manager.dispatch(&event, &mut ctx), Directive::Nothing));
    }
    assert_eq!(ctx.file_refs.len(), 1);
    assert_eq!(ctx.file_refs[0].url, "https://cdn/2");
}

#[test]
fn metadata_get_and_insert() {
    let mut ctx = EventContext::default();
    assert_eq!(ctx.get("last_sent_reasoning_len"), None);
    ctx.insert("last_sent_reasoning_len", 5);
    ctx.insert("other", 1);
    ctx.insert("last_sent_reasoning_len", 9);
    assert_eq!(ctx.get("last_sent_reasoning_len"), Some(9));
    assert_eq!(ctx.get("other"), Some(1));
    assert_eq!(ctx.metadata.len(), 2);
}

#[test]
fn one_piece_response() {
    let response = generator(true)
        .handle_non_stream_response(&vec![
            text("Prefix *Thinking...*\n> step1\n> step2\nAnswer."),
            tool_calls("c1", "search", "{}"),
            done(),
        ])
        .expect("response");
    assert_eq!(response.id, "chatcmpl-abc");
    assert_eq!(response.object, "chat.completion");
    assert_eq!(response.model, "gpt-x");
    assert_eq!(response.choices.len(), 1);
    let choice = &response.choices[0];
    assert_eq!(choice.message.role, "assistant");
    assert_eq!(choice.message.content, "Prefix Answer.");
    assert_eq!(choice.message.reasoning_content.as_deref(), Some("step1\nstep2\n"));
    assert_eq!(choice.message.tool_calls.as_ref().map(|c| c.len()), Some(1));
    assert_eq!(choice.finish_reason.as_deref(), Some("tool_calls"));
    let usage = response.usage.expect("usage");
    assert_eq!(usage.prompt_tokens + usage.completion_tokens, usage.total_tokens as u32);
}

#[test]
fn one_piece_response_prefers_the_replace_buffer_and_resolves_references() {
    let response = generator(false)
        .handle_non_stream_response(&vec![
            replace("See [img1] please."),
            file("img1", "https://cdn/x.png"),
            done(),
        ])
        .expect("response");
    let choice = &response.choices[0];
    assert_eq!(choice.message.content, "See (https://cdn/x.png) please.");
    assert!(choice.message.tool_calls.is_none());
    assert!(choice.message.reasoning_content.is_none());
    assert_eq!(choice.finish_reason.as_deref(), Some("stop"));
    assert!(response.usage.is_none());
}

#[test]
fn one_piece_response_fails_with_the_upstream_error() {
    let failed = generator(false)
        .handle_non_stream_response(&vec![text("a"), error("Bot does not exist")])
        .expect_err("error");
    assert_eq!(failed.0, 404);
    assert_eq!(failed.1.error.kind, "model_not_found");
    let broken = generator(false)
        .handle_non_stream_response(&vec![UpstreamItem::Failure("Internal server error".into())])
        .expect_err("error");
    assert_eq!(broken.0, 500);
    assert_eq!(broken.1.error.code, "internal_error");
}

#[test]
fn frames_are_written_as_server_sent_events() {
    assert_eq!(sse_frame("{\"a\":1}"), "data: {\"a\":1}\n\n");
    assert_eq!(sse_done(), "data: [DONE]\n\n");
}

#[test]
fn file_event_resolves_every_known_placeholder() {
    let frames = generator(false).process_stream(&vec![
        file("a", "https://cdn/a"),
        replace("x"),
        text("[a][b]"),
        file("b", "https://cdn/b"),
        done(),
    ]);
    assert_eq!(frames.len(), 5);
    assert!(is_role(&frames[0]));
    assert_eq!(content(&frames[1]).as_deref(), Some("x(https://cdn/a)[b]"));
    assert_eq!(content(&frames[2]).as_deref(), Some("x(https://cdn/a)(https://cdn/b)"));
    assert_eq!(finish(&frames[3]).as_deref(), Some("stop"));
}

#[test]
fn done_releases_a_buffer_that_still_holds_placeholders() {
    let manager = EventHandlerManager::new();
    let mut ctx = EventContext::new();
    ctx.replace_buffer = Some("see [r]".to_string());
    ctx.file_refs.push(FileData {
        url: "https://cdn/r".to_string(),
        name: "n".to_string(),
        content_type: "image/png".to_string(),
        inline_ref: "r".to_string(),
    });
    let end = ChatResponse { event: ChatEventType::Done, data: None };
    match manager.dispatch(&end, &mut ctx) {
        Directive::Content(text) => assert_eq!(text, "see (https://cdn/r)"),
        other => panic!("unexpected: {:?}", other),
    }
    assert!(ctx.done);
    assert!(ctx.image_urls_sent);
    assert!(matches!(manager.dispatch(&end, &mut ctx), Directive::Done));
    let mut fresh = EventContext::new();
    fresh.replace_buffer = Some("see [r]".to_string());
    fresh.file_refs.push(FileData {
        url: "https://cdn/r".to_string(),
        name: "n".to_string(),
        content_type: "image/png".to_string(),
        inline_ref: "r".to_string(),
    });
    let (frames, finished) = generator(false).process_event(&mut fresh, &end);
    assert!(finished);
    assert_eq!(frames.len(), 3);
    assert!(is_role(&frames[0]));
    assert_eq!(content(&frames[1]).as_deref(), Some("see (https://cdn/r)"));
    assert!(finish(&frames[1]).is_none());
    assert_eq!(finish(&frames[2]).as_deref(), Some("stop"));
}
