//! Assembly of the upstream request from a chat completion request.

use crate::chat::{
    ChatCompletionRequest, Config, ConfigModel, ContentItemModel, ContentModel, Message,
    MessageModel, ModelConfigModel, OpenAiContent, OpenAiContentItem, RequestModel,
};
use crate::content::{content_text, get_text_from_openai_content};
use crate::decimal::{decimal_digits, push_decimal};
use crate::split::{join, vec_join};
use crate::text::{
    append, chars_of, copy_str, lowercase_of, str_eq, string_of, to_lowercase, vec_views,
};
use crate::thinking::newline;
use crate::tokens::{count_tokens, token_count};
use crate::tools::{
    assistant_calls, collect_assistant_calls, count_tool_messages, filter_tools_for_poe,
    find_call, has_call, message_call_id, tool_call_id_of, tool_message_count, tool_role,
    tool_sequence_check, upstream_tools, validate_tool_sequence, ToolSequenceError,
    ToolSequenceFault,
};
use crate::upstream::{
    Attachment, AttachmentModel, ChatMessage, ChatMessageModel, ChatRequest, ChatRequestModel,
    ChatToolCall, ChatToolResult, ToolCallModel, ToolModel, ToolResultModel,
};
use vstd::prelude::*;

verus! {

// ---------------------------------------------------------------------
// Suffixes

/// A tool whose description says something.
pub open spec fn has_description(tool: ToolModel) -> bool {
    tool.description matches Some(d) && d.len() > 0
}

/// ` --<name>` for each tool from index `i` on that has no description.
pub open spec fn tool_suffixes(tools: Seq<ToolModel>, i: int) -> Seq<char>
    decreases tools.len() - i,
{
    if i < 0 || i >= tools.len() {
        Seq::empty()
    } else if has_description(tools[i]) {
        tool_suffixes(tools, i + 1)
    } else {
        " --"@ + tools[i].name + tool_suffixes(tools, i + 1)
    }
}

/// The budget that `extra_body.google.thinking_config` states.
pub open spec fn google_budget(req: RequestModel) -> Option<i32> {
    match req.extra_body {
        Some(e) => match e.google {
            Some(g) => match g.thinking_config {
                Some(tc) => tc.thinking_budget,
                None => None,
            },
            None => None,
        },
        None => None,
    }
}

/// The thinking budget of a request: that of `thinking` where it states
/// one, else that of `extra_body.google.thinking_config`.
pub open spec fn thinking_budget(req: RequestModel) -> Option<i32> {
    match req.thinking {
        Some(t) => match t.budget_tokens {
            Some(b) => Some(b),
            None => google_budget(req),
        },
        None => google_budget(req),
    }
}

/// ` --thinking_budget <n>` for a budget that is not negative.
pub open spec fn budget_suffix(req: RequestModel) -> Seq<char> {
    match thinking_budget(req) {
        Some(b) => if b >= 0 {
            " --thinking_budget "@ + decimal_digits(b as nat)
        } else {
            Seq::empty()
        },
        None => Seq::empty(),
    }
}

/// One of the three levels of reasoning effort.
pub open spec fn is_effort(e: Seq<char>) -> bool {
    e == "low"@ || e == "medium"@ || e == "high"@
}

/// ` --reasoning_effort <level>` for a valid level.
pub open spec fn effort_suffix(req: RequestModel) -> Seq<char> {
    match req.reasoning_effort {
        Some(e) => if is_effort(e) {
            " --reasoning_effort "@ + e
        } else {
            Seq::empty()
        },
        None => Seq::empty(),
    }
}

/// What a request appends to the content of its last user message.
pub open spec fn suffix_text(req: RequestModel) -> Seq<char> {
    (match req.tools {
        Some(tools) => tool_suffixes(tools, 0),
        None => Seq::empty(),
    }) + budget_suffix(req) + effort_suffix(req)
}

/// The content with the suffixes of the request.
pub open spec fn with_suffixes(content: Seq<char>, req: RequestModel) -> Seq<char> {
    content + suffix_text(req)
}

/// The suffixes depend on the request alone, and each run appends them
/// again: two runs leave them twice, and that equals one run exactly when
/// the request asks for no suffix.
pub proof fn lemma_suffixes_append(content: Seq<char>, req: RequestModel)
    ensures
        with_suffixes(with_suffixes(content, req), req) == content + suffix_text(req)
            + suffix_text(req),
        with_suffixes(with_suffixes(content, req), req) == with_suffixes(content, req)
            <==> suffix_text(req).len() == 0,
{
    let s = suffix_text(req);
    let once = content + s;
    let twice = once + s;
    if s.len() == 0 {
        assert(twice =~= once);
    } else {
        assert(twice.len() != once.len());
    }
}

fn thinking_budget_of(req: &ChatCompletionRequest) -> (r: Option<i32>)
    ensures
        r == thinking_budget(req.deep_view()),
{
    let stated = match req.thinking {
        Some(t) => t.budget_tokens,
        None => None,
    };
    match stated {
        Some(b) => Some(b),
        None => match req.extra_body {
            Some(e) => match e.google {
                Some(g) => match g.thinking_config {
                    Some(tc) => tc.thinking_budget,
                    None => None,
                },
                None => None,
            },
            None => None,
        },
    }
}

/// Appends to `content` what the request asks for: the names of the tools
/// without a description, the thinking budget, the reasoning effort.
pub fn process_message_content_with_suffixes(content: &str, chat_request: &ChatCompletionRequest) -> (r:
    String)
    ensures
        r@ == with_suffixes(content@, chat_request.deep_view()),
{
    let mut out = chars_of(content);
    let ghost req = chat_request.deep_view();
    match &chat_request.tools {
        Some(tools) => {
            let mut i: usize = 0;
            while i < tools.len()
                invariant
                    i <= tools.len(),
                    out@ + tool_suffixes(tools.deep_view(), i as int) == content@ + tool_suffixes(
                        tools.deep_view(),
                        0,
                    ),
                decreases tools.len() - i,
            {
                assert(tools.deep_view()[i as int] == tools@[i as int].deep_view());
                let described = match &tools[i].function.description {
                    Some(d) => d.as_str().unicode_len() > 0,
                    None => false,
                };
                if !described {
                    let ghost before = out@;
                    append(&mut out, &chars_of(" --"));
                    append(&mut out, &chars_of(tools[i].function.name.as_str()));
                    assert(before + (" --"@ + tools@[i as int].function.name@ + tool_suffixes(
                        tools.deep_view(),
                        i + 1,
                    )) =~= out@ + tool_suffixes(tools.deep_view(), i + 1));
                }
                i += 1;
            }
            assert(out@ + Seq::<char>::empty() =~= out@);
        },
        None => {
            assert(out@ =~= content@ + Seq::<char>::empty());
        },
    }
    let ghost after_tools = out@;
    match thinking_budget_of(chat_request) {
        Some(b) => {
            if b >= 0 {
                append(&mut out, &chars_of(" --thinking_budget "));
                push_decimal(&mut out, b as u64);
            }
        },
        None => {},
    }
    assert(out@ =~= after_tools + budget_suffix(req));
    let ghost after_budget = out@;
    match &chat_request.reasoning_effort {
        Some(e) => {
            if str_eq(e.as_str(), "low") || str_eq(e.as_str(), "medium") || str_eq(
                e.as_str(),
                "high",
            ) {
                append(&mut out, &chars_of(" --reasoning_effort "));
                append(&mut out, &chars_of(e.as_str()));
            }
        },
        None => {},
    }
    assert(out@ =~= after_budget + effort_suffix(req));
    assert(out@ =~= content@ + suffix_text(req));
    string_of(&out)
}

// ---------------------------------------------------------------------
// One message

/// The role under which a message goes upstream, where it is not its own.
pub open spec fn upstream_role(role: Seq<char>, replace_response: bool) -> Option<Seq<char>> {
    if role == "assistant"@ {
        Some("bot"@)
    } else if role == "developer"@ || role == "tool"@ {
        Some("user"@)
    } else if role == "system"@ && replace_response {
        Some("user"@)
    } else {
        None
    }
}

pub fn role_override(role: &str, replace_response: bool) -> (r: Option<String>)
    ensures
        r.deep_view() == upstream_role(role@, replace_response),
{
    if str_eq(role, "assistant") {
        Some(copy_str("bot"))
    } else if str_eq(role, "developer") || str_eq(role, "tool") {
        Some(copy_str("user"))
    } else if str_eq(role, "system") && replace_response {
        Some(copy_str("user"))
    } else {
        None
    }
}

/// The texts of the text parts from index `i` on.
pub open spec fn part_texts(items: Seq<ContentItemModel>, i: int) -> Seq<Seq<char>>
    decreases items.len() - i,
{
    if i < 0 || i >= items.len() {
        Seq::empty()
    } else {
        match items[i] {
            ContentItemModel::Text { text, .. } => seq![text] + part_texts(items, i + 1),
            _ => part_texts(items, i + 1),
        }
    }
}

/// The images of the parts from index `i` on, as attachments.
pub open spec fn part_attachments(items: Seq<ContentItemModel>, i: int) -> Seq<AttachmentModel>
    decreases items.len() - i,
{
    if i < 0 || i >= items.len() {
        Seq::empty()
    } else {
        match items[i] {
            ContentItemModel::ImageUrl { url, .. } => seq![
                AttachmentModel { url, content_type: None },
            ] + part_attachments(items, i + 1),
            _ => part_attachments(items, i + 1),
        }
    }
}

pub open spec fn content_texts(content: Option<ContentModel>) -> Seq<Seq<char>> {
    match content {
        Some(ContentModel::Text(t)) => seq![t],
        Some(ContentModel::Multi(items)) => part_texts(items, 0),
        None => Seq::empty(),
    }
}

pub open spec fn content_attachments(content: Option<ContentModel>) -> Seq<AttachmentModel> {
    match content {
        Some(ContentModel::Multi(items)) => part_attachments(items, 0),
        _ => Seq::empty(),
    }
}

/// A tool call as a line of text.
pub open spec fn call_text(call: ToolCallModel) -> Seq<char> {
    "Tool Call: "@ + call.name + " ("@ + call.id + ")\nArguments: "@ + call.arguments
}

pub open spec fn call_texts(calls: Seq<ToolCallModel>) -> Seq<Seq<char>> {
    Seq::new(calls.len(), |i: int| call_text(calls[i]))
}

/// The lines of a message: the id of the call that it answers, its texts,
/// its tool calls.
pub open spec fn message_texts(m: MessageModel) -> Seq<Seq<char>> {
    (match m.tool_call_id {
        Some(id) => seq!["Tool Call ID: "@ + id],
        None => Seq::empty(),
    }) + content_texts(m.content) + (match m.tool_calls {
        Some(calls) => call_texts(calls),
        None => Seq::empty(),
    })
}

/// The upstream form of a message. The suffixes of `req` go to the content
/// of a user message.
pub open spec fn upstream_message(
    m: MessageModel,
    role: Option<Seq<char>>,
    req: Option<RequestModel>,
) -> ChatMessageModel {
    let body = join(message_texts(m), newline());
    let attachments = content_attachments(m.content);
    ChatMessageModel {
        role: match role {
            Some(r) => r,
            None => m.role,
        },
        content: match req {
            Some(r) => if m.role == "user"@ {
                with_suffixes(body, r)
            } else {
                body
            },
            None => body,
        },
        attachments: if attachments.len() > 0 {
            Some(attachments)
        } else {
            None
        },
        content_type: "text/markdown"@,
    }
}

fn call_line(call: &ChatToolCall) -> (r: Vec<char>)
    ensures
        r@ == call_text(call.deep_view()),
{
    let mut r = chars_of("Tool Call: ");
    append(&mut r, &chars_of(call.function.name.as_str()));
    append(&mut r, &chars_of(" ("));
    append(&mut r, &chars_of(call.id.as_str()));
    append(&mut r, &chars_of(")\nArguments: "));
    append(&mut r, &chars_of(call.function.arguments.as_str()));
    r
}

fn message_lines(msg: &Message) -> (r: (Vec<Vec<char>>, Vec<Attachment>))
    ensures
        vec_views(r.0@) == message_texts(msg.deep_view()),
        r.1.deep_view() == content_attachments(msg.deep_view().content),
{
    let mut texts: Vec<Vec<char>> = Vec::new();
    let mut attachments: Vec<Attachment> = Vec::new();
    assert(attachments.deep_view() =~= Seq::<AttachmentModel>::empty());
    match &msg.tool_call_id {
        Some(id) => {
            let mut line = chars_of("Tool Call ID: ");
            append(&mut line, &chars_of(id.as_str()));
            texts.push(line);
            assert(vec_views(texts@) =~= seq!["Tool Call ID: "@ + id@]);
        },
        None => {
            assert(vec_views(texts@) =~= Seq::<Seq<char>>::empty());
        },
    }
    let ghost head = vec_views(texts@);
    match &msg.content {
        Some(OpenAiContent::Text(t)) => {
            texts.push(chars_of(t.as_str()));
            assert(vec_views(texts@) =~= head + seq![t@]);
        },
        Some(OpenAiContent::Multi(items)) => {
            let mut i: usize = 0;
            while i < items.len()
                invariant
                    i <= items.len(),
                    head + part_texts(items.deep_view(), 0) == vec_views(texts@) + part_texts(
                        items.deep_view(),
                        i as int,
                    ),
                    part_attachments(items.deep_view(), 0) == attachments.deep_view()
                        + part_attachments(items.deep_view(), i as int),
                decreases items.len() - i,
            {
                assert(items.deep_view()[i as int] == items@[i as int].deep_view());
                let ghost t0 = vec_views(texts@);
                let ghost a0 = attachments.deep_view();
                match &items[i] {
                    OpenAiContentItem::Text { text, .. } => {
                        texts.push(chars_of(text.as_str()));
                        assert(vec_views(texts@) =~= t0.push(text@));
                        assert(t0 + (seq![text@] + part_texts(items.deep_view(), i + 1))
                            =~= vec_views(texts@) + part_texts(items.deep_view(), i + 1));
                    },
                    OpenAiContentItem::ImageUrl { image_url, .. } => {
                        let a = Attachment { url: image_url.url.clone(), content_type: None };
                        attachments.push(a);
                        assert(attachments.deep_view() =~= a0.push(a.deep_view()));
                        assert(a0 + (seq![a.deep_view()] + part_attachments(
                            items.deep_view(),
                            i + 1,
                        )) =~= attachments.deep_view() + part_attachments(
                            items.deep_view(),
                            i + 1,
                        ));
                    },
                    _ => {},
                }
                i += 1;
            }
            assert(vec_views(texts@) + Seq::<Seq<char>>::empty() =~= vec_views(texts@));
            assert(attachments.deep_view() + Seq::<AttachmentModel>::empty()
                =~= attachments.deep_view());
        },
        None => {
            assert(vec_views(texts@) =~= head + Seq::<Seq<char>>::empty());
        },
    }
    let ghost mid = vec_views(texts@);
    match &msg.tool_calls {
        Some(calls) => {
            let mut k: usize = 0;
            while k < calls.len()
                invariant
                    k <= calls.len(),
                    vec_views(texts@) == mid + call_texts(calls.deep_view()).take(k as int),
                decreases calls.len() - k,
            {
                let ghost t0 = vec_views(texts@);
                let line = call_line(&calls[k]);
                texts.push(line);
                assert(vec_views(texts@) =~= t0.push(line@));
                assert(vec_views(texts@) =~= mid + call_texts(calls.deep_view()).take(k + 1));
                k += 1;
            }
            assert(call_texts(calls.deep_view()).take(calls.len() as int) =~= call_texts(
                calls.deep_view(),
            ));
        },
        None => {
            assert(vec_views(texts@) =~= mid + Seq::<Seq<char>>::empty());
        },
    }
    (texts, attachments)
}

/// Turns a message into its upstream form, under the given role where
/// there is one. With a request, a user message gets the request's
/// suffixes.
pub fn openai_message_to_poe(
    msg: &Message,
    role_override: Option<String>,
    chat_completion_request: Option<&ChatCompletionRequest>,
) -> (r: ChatMessage)
    ensures
        r.deep_view() == upstream_message(
            msg.deep_view(),
            role_override.deep_view(),
            match chat_completion_request {
                Some(req) => Some(req.deep_view()),
                None => None,
            },
        ),
{
    let (texts, attachments) = message_lines(msg);
    let mut nl: Vec<char> = Vec::new();
    nl.push('\n');
    assert(nl@ =~= newline());
    let body = string_of(&vec_join(&texts, &nl));
    let content = match chat_completion_request {
        Some(req) => if str_eq(msg.role.as_str(), "user") {
            process_message_content_with_suffixes(body.as_str(), req)
        } else {
            body
        },
        None => body,
    };
    ChatMessage {
        role: match role_override {
            Some(r) => r,
            None => msg.role.clone(),
        },
        content,
        attachments: if attachments.len() > 0 {
            Some(attachments)
        } else {
            None
        },
        content_type: copy_str("text/markdown"),
    }
}

// ---------------------------------------------------------------------
// The configuration's view of a model

/// Index of the first override from index `i` on whose model id reads
/// `id` without regard to case.
pub open spec fn override_index(models: Seq<(Seq<char>, ModelConfigModel)>, id: Seq<char>, i: int) -> Option<
    int,
>
    decreases models.len() - i,
{
    if i < 0 || i >= models.len() {
        None
    } else if lowercase_of(models[i].0) == lowercase_of(id) {
        Some(i)
    } else {
        override_index(models, id, i + 1)
    }
}

/// Whether system messages go upstream as user messages for this model.
pub open spec fn replaces_response(config: ConfigModel, model: Seq<char>) -> bool {
    match override_index(config.models, model, 0) {
        Some(i) => config.models[i].1.replace_response == Some(true),
        None => false,
    }
}

/// Index of the first override from index `i` on whose mapping reads
/// `alias` without regard to case.
pub open spec fn alias_index(models: Seq<(Seq<char>, ModelConfigModel)>, alias: Seq<char>, i: int) -> Option<
    int,
>
    decreases models.len() - i,
{
    if i < 0 || i >= models.len() {
        None
    } else if (models[i].1.mapping matches Some(m) && lowercase_of(m) == lowercase_of(alias)) {
        Some(i)
    } else {
        alias_index(models, alias, i + 1)
    }
}

/// The model id that goes upstream for a requested id: with the
/// configuration enabled, the id of the first override that maps to the
/// requested id; else the requested id.
pub open spec fn upstream_model(config: ConfigModel, requested: Seq<char>) -> Seq<char> {
    if Config::is_enabled(config) {
        match alias_index(config.models, requested, 0) {
            Some(i) => config.models[i].0,
            None => requested,
        }
    } else {
        requested
    }
}

/// Where an enabled configuration maps the model `x` to the name `y`, and
/// no override before it maps to `y`, a request for `y` goes upstream as
/// `x`.
pub proof fn lemma_alias_resolves(config: ConfigModel, x: int, y: Seq<char>)
    requires
        Config::is_enabled(config),
        0 <= x < config.models.len(),
        config.models[x].1.mapping == Some(y),
        forall|j: int|
            0 <= j < x ==> !((#[trigger] config.models[j]).1.mapping matches Some(m)
                && lowercase_of(m) == lowercase_of(y)),
    ensures
        upstream_model(config, y) == config.models[x].0,
{
    lemma_alias_index(config.models, y, x, 0);
}

proof fn lemma_alias_index(models: Seq<(Seq<char>, ModelConfigModel)>, y: Seq<char>, x: int, i: int)
    requires
        0 <= i <= x < models.len(),
        models[x].1.mapping matches Some(m) && lowercase_of(m) == lowercase_of(y),
        forall|j: int|
            0 <= j < x ==> !((#[trigger] models[j]).1.mapping matches Some(m) && lowercase_of(m)
                == lowercase_of(y)),
    ensures
        alias_index(models, y, i) == Some(x),
    decreases x - i,
{
    if i < x {
        assert(!(models[i].1.mapping matches Some(m) && lowercase_of(m) == lowercase_of(y)));
        lemma_alias_index(models, y, x, i + 1);
    }
}

/// The model under which the reply is shown, and the model that goes
/// upstream.
pub fn resolve_model(config: &Config, requested: &str) -> (r: (String, String))
    ensures
        r.0@ == requested@,
        r.1@ == upstream_model(config.deep_view(), requested@),
{
    if config.enabled() {
        let wanted = to_lowercase(requested);
        let mut i: usize = 0;
        while i < config.models.len()
            invariant
                i <= config.models.len(),
                Config::is_enabled(config.deep_view()),
                wanted@ == lowercase_of(requested@),
                alias_index(config.deep_view().models, requested@, 0) == alias_index(
                    config.deep_view().models,
                    requested@,
                    i as int,
                ),
            decreases config.models.len() - i,
        {
            assert(config.models.deep_view()[i as int] == config.models@[i as int].deep_view());
            let hit = match &config.models[i].1.mapping {
                Some(m) => str_eq(to_lowercase(m.as_str()).as_str(), wanted.as_str()),
                None => false,
            };
            if hit {
                return (copy_str(requested), config.models[i].0.clone());
            }
            i += 1;
        }
    }
    (copy_str(requested), copy_str(requested))
}

pub fn should_replace_response(config: &Config, model: &str) -> (r: bool)
    ensures
        r == replaces_response(config.deep_view(), model@),
{
    let wanted = to_lowercase(model);
    let mut i: usize = 0;
    while i < config.models.len()
        invariant
            i <= config.models.len(),
            wanted@ == lowercase_of(model@),
            override_index(config.deep_view().models, model@, 0) == override_index(
                config.deep_view().models,
                model@,
                i as int,
            ),
        decreases config.models.len() - i,
    {
        assert(config.models.deep_view()[i as int] == config.models@[i as int].deep_view());
        if str_eq(to_lowercase(config.models[i].0.as_str()).as_str(), wanted.as_str()) {
            return match config.models[i].1.replace_response {
                Some(b) => b,
                None => false,
            };
        }
        i += 1;
    }
    false
}

// ---------------------------------------------------------------------
// The request

/// The calls from index `i` on, added to `acc` unless a call of the same
/// id is there already.
pub open spec fn distinct_calls(calls: Seq<ToolCallModel>, i: int, acc: Seq<ToolCallModel>) -> Seq<
    ToolCallModel,
>
    decreases calls.len() - i,
{
    if i < 0 || i >= calls.len() {
        acc
    } else if has_call(acc, calls[i].id) {
        distinct_calls(calls, i + 1, acc)
    } else {
        distinct_calls(calls, i + 1, acc.push(calls[i]))
    }
}

/// The name of the first call from index `i` on that has the id, or
/// `unknown`: of calls with one id, the first counts.
pub open spec fn call_name(calls: Seq<ToolCallModel>, id: Seq<char>, i: int) -> Seq<char>
    decreases calls.len() - i,
{
    if i < 0 || i >= calls.len() {
        "unknown"@
    } else if calls[i].id == id {
        calls[i].name
    } else {
        call_name(calls, id, i + 1)
    }
}

/// The results of the tool messages from index `i` on. A tool message
/// that names no call gives none.
pub open spec fn tool_results(messages: Seq<MessageModel>, calls: Seq<ToolCallModel>, i: int) -> Seq<
    ToolResultModel,
>
    decreases messages.len() - i,
{
    if i < 0 || i >= messages.len() {
        Seq::empty()
    } else if messages[i].role == tool_role() {
        match message_call_id(messages[i]) {
            Some(id) => seq![
                ToolResultModel {
                    role: "tool"@,
                    tool_call_id: id,
                    name: call_name(calls, id, 0),
                    content: content_text(messages[i].content),
                },
            ] + tool_results(messages, calls, i + 1),
            None => tool_results(messages, calls, i + 1),
        }
    } else {
        tool_results(messages, calls, i + 1)
    }
}

/// The upstream messages from index `i` on. The request's suffixes go to
/// the last message where it is a user message.
pub open spec fn query_from(
    messages: Seq<MessageModel>,
    req: RequestModel,
    replace_response: bool,
    i: int,
) -> Seq<ChatMessageModel>
    decreases messages.len() - i,
{
    if i < 0 || i >= messages.len() {
        Seq::empty()
    } else {
        seq![
            upstream_message(
                messages[i],
                upstream_role(messages[i].role, replace_response),
                if i == messages.len() - 1 {
                    Some(req)
                } else {
                    None
                },
            ),
        ] + query_from(messages, req, replace_response, i + 1)
    }
}

/// The upstream request for a conversation.
pub open spec fn chat_request(
    model: Seq<char>,
    messages: Seq<MessageModel>,
    req: RequestModel,
    config: ConfigModel,
) -> ChatRequestModel {
    let answering = tool_message_count(messages, 0) > 0;
    let calls = assistant_calls(messages, 0);
    let distinct = distinct_calls(calls, 0, Seq::empty());
    let results = tool_results(messages, calls, 0);
    ChatRequestModel {
        version: "1.1"@,
        kind: "query"@,
        query: query_from(messages, req, replaces_response(config, model), 0),
        user_id: Seq::empty(),
        conversation_id: Seq::empty(),
        message_id: Seq::empty(),
        tools: upstream_tools(req.tools),
        tool_calls: if answering && distinct.len() > 0 {
            Some(distinct)
        } else {
            None
        },
        tool_results: if answering && results.len() > 0 {
            Some(results)
        } else {
            None
        },
        stop_sequences: req.stop,
    }
}

fn distinct_calls_exec(calls: &Vec<ChatToolCall>) -> (r: Vec<ChatToolCall>)
    ensures
        r.deep_view() == distinct_calls(calls.deep_view(), 0, Seq::empty()),
{
    let mut acc: Vec<ChatToolCall> = Vec::new();
    assert(acc.deep_view() =~= Seq::<ToolCallModel>::empty());
    let mut i: usize = 0;
    while i < calls.len()
        invariant
            i <= calls.len(),
            distinct_calls(calls.deep_view(), 0, Seq::empty()) == distinct_calls(
                calls.deep_view(),
                i as int,
                acc.deep_view(),
            ),
        decreases calls.len() - i,
    {
        assert(calls.deep_view()[i as int] == calls@[i as int].deep_view());
        if !find_call(&acc, calls[i].id.as_str()) {
            let ghost before = acc.deep_view();
            acc.push(calls[i].copy());
            assert(acc.deep_view() =~= before.push(calls@[i as int].deep_view()));
        }
        i += 1;
    }
    acc
}

fn call_name_exec(calls: &Vec<ChatToolCall>, id: &str) -> (r: String)
    ensures
        r@ == call_name(calls.deep_view(), id@, 0),
{
    let mut i: usize = 0;
    while i < calls.len()
        invariant
            i <= calls.len(),
            call_name(calls.deep_view(), id@, 0) == call_name(calls.deep_view(), id@, i as int),
        decreases calls.len() - i,
    {
        assert(calls.deep_view()[i as int] == calls@[i as int].deep_view());
        if str_eq(calls[i].id.as_str(), id) {
            return calls[i].function.name.clone();
        }
        i += 1;
    }
    copy_str("unknown")
}

fn tool_results_exec(messages: &Vec<Message>, calls: &Vec<ChatToolCall>) -> (r: Vec<ChatToolResult>)
    ensures
        r.deep_view() == tool_results(messages.deep_view(), calls.deep_view(), 0),
{
    let mut out: Vec<ChatToolResult> = Vec::new();
    assert(out.deep_view() =~= Seq::<ToolResultModel>::empty());
    let mut i: usize = 0;
    while i < messages.len()
        invariant
            i <= messages.len(),
            tool_results(messages.deep_view(), calls.deep_view(), 0) == out.deep_view()
                + tool_results(messages.deep_view(), calls.deep_view(), i as int),
        decreases messages.len() - i,
    {
        assert(messages.deep_view()[i as int] == messages@[i as int].deep_view());
        if str_eq(messages[i].role.as_str(), "tool") {
            match tool_call_id_of(&messages[i]) {
                Some(id) => {
                    let ghost before = out.deep_view();
                    let result = ChatToolResult {
                        role: copy_str("tool"),
                        name: call_name_exec(calls, id.as_str()),
                        tool_call_id: id,
                        content: get_text_from_openai_content(&messages[i].content),
                    };
                    out.push(result);
                    assert(out.deep_view() =~= before.push(result.deep_view()));
                    assert(before + (seq![result.deep_view()] + tool_results(
                        messages.deep_view(),
                        calls.deep_view(),
                        i + 1,
                    )) =~= out.deep_view() + tool_results(
                        messages.deep_view(),
                        calls.deep_view(),
                        i + 1,
                    ));
                },
                None => {},
            }
        }
        i += 1;
    }
    assert(out.deep_view() + Seq::<ToolResultModel>::empty() =~= out.deep_view());
    out
}

fn copy_strings(v: &Option<Vec<String>>) -> (r: Option<Vec<String>>)
    ensures
        r.deep_view() == v.deep_view(),
{
    match v {
        Some(all) => {
            let mut out: Vec<String> = Vec::new();
            let mut i: usize = 0;
            while i < all.len()
                invariant
                    i <= all.len(),
                    out.len() == i,
                    forall|k: int| 0 <= k < i ==> (#[trigger] out@[k])@ == all@[k]@,
                decreases all.len() - i,
            {
                out.push(all[i].clone());
                i += 1;
            }
            assert(out.deep_view() =~= all.deep_view());
            Some(out)
        },
        None => None,
    }
}

/// Builds the upstream request for `messages` under the settings of
/// `chat_completion_request` and the overrides of `config`.
pub fn create_chat_request(
    model: &str,
    messages: &Vec<Message>,
    chat_completion_request: &ChatCompletionRequest,
    config: &Config,
) -> (r: ChatRequest)
    ensures
        r.deep_view() == chat_request(
            model@,
            messages.deep_view(),
            chat_completion_request.deep_view(),
            config.deep_view(),
        ),
{
    let replace = should_replace_response(config, model);
    let answering = count_tool_messages(messages) > 0;
    let mut tool_calls: Option<Vec<ChatToolCall>> = None;
    let mut tool_results: Option<Vec<ChatToolResult>> = None;
    if answering {
        let calls = collect_assistant_calls(messages);
        let distinct = distinct_calls_exec(&calls);
        let results = tool_results_exec(messages, &calls);
        if distinct.len() > 0 {
            tool_calls = Some(distinct);
        }
        if results.len() > 0 {
            tool_results = Some(results);
        }
    }
    let mut query: Vec<ChatMessage> = Vec::new();
    assert(query.deep_view() =~= Seq::<ChatMessageModel>::empty());
    let ghost req = chat_completion_request.deep_view();
    let mut i: usize = 0;
    while i < messages.len()
        invariant
            i <= messages.len(),
            req == chat_completion_request.deep_view(),
            query_from(messages.deep_view(), req, replace, 0) == query.deep_view() + query_from(
                messages.deep_view(),
                req,
                replace,
                i as int,
            ),
        decreases messages.len() - i,
    {
        assert(messages.deep_view()[i as int] == messages@[i as int].deep_view());
        let ghost before = query.deep_view();
        let role = role_override(messages[i].role.as_str(), replace);
        let m = if i == messages.len() - 1 {
            openai_message_to_poe(&messages[i], role, Some(chat_completion_request))
        } else {
            openai_message_to_poe(&messages[i], role, None)
        };
        query.push(m);
        assert(query.deep_view() =~= before.push(m.deep_view()));
        assert(before + (seq![m.deep_view()] + query_from(messages.deep_view(), req, replace, i + 1))
            =~= query.deep_view() + query_from(messages.deep_view(), req, replace, i + 1));
        i += 1;
    }
    assert(query.deep_view() + Seq::<ChatMessageModel>::empty() =~= query.deep_view());
    ChatRequest {
        version: copy_str("1.1"),
        kind: copy_str("query"),
        query,
        user_id: String::new(),
        conversation_id: String::new(),
        message_id: String::new(),
        tools: filter_tools_for_poe(&chat_completion_request.tools),
        tool_calls,
        tool_results,
        stop_sequences: copy_strings(&chat_completion_request.stop),
    }
}

/// Validates the tool messages of the conversation and, where they pass,
/// builds the upstream request.
pub fn assemble_chat_request(
    model: &str,
    messages: &Vec<Message>,
    chat_completion_request: &ChatCompletionRequest,
    config: &Config,
) -> (r: Result<ChatRequest, ToolSequenceError>)
    ensures
        match r {
            Ok(request) => tool_sequence_check(messages.deep_view()) is Ok && request.deep_view()
                == chat_request(
                model@,
                messages.deep_view(),
                chat_completion_request.deep_view(),
                config.deep_view(),
            ),
            Err(e) => tool_sequence_check(messages.deep_view()) == Err::<(), ToolSequenceFault>(
                e.deep_view(),
            ),
        },
{
    match validate_tool_sequence(messages) {
        Ok(_) => Ok(create_chat_request(model, messages, chat_completion_request, config)),
        Err(e) => Err(e),
    }
}

// ---------------------------------------------------------------------
// Prompt tokens

/// The tokens of the messages from index `i` on: four for each message,
/// and those of its plain text.
pub open spec fn message_tokens(messages: Seq<MessageModel>, i: int) -> nat
    decreases messages.len() - i,
{
    if i < 0 || i >= messages.len() {
        0
    } else {
        4 + token_count(content_text(messages[i].content)) as nat + message_tokens(messages, i + 1)
    }
}

/// The prompt tokens of a conversation: those of its messages and two for
/// the frame, capped at `u32::MAX`.
pub open spec fn prompt_token_count(messages: Seq<MessageModel>) -> u32 {
    let n = message_tokens(messages, 0) + 2;
    if n > u32::MAX {
        u32::MAX
    } else {
        n as u32
    }
}

/// Counts the prompt tokens of a conversation.
pub fn count_message_tokens(messages: &Vec<Message>) -> (r: u32)
    ensures
        r == prompt_token_count(messages.deep_view()),
{
    let mut total: u64 = 0;
    let mut i: usize = 0;
    while i < messages.len()
        invariant
            i <= messages.len(),
            total <= u32::MAX,
            total == u32::MAX ==> message_tokens(messages.deep_view(), 0) >= u32::MAX,
            total < u32::MAX ==> message_tokens(messages.deep_view(), 0) == total + message_tokens(
                messages.deep_view(),
                i as int,
            ),
        decreases messages.len() - i,
    {
        assert(messages.deep_view()[i as int] == messages@[i as int].deep_view());
        let text = get_text_from_openai_content(&messages[i].content);
        let n = count_tokens(text.as_str());
        let next: u64 = total + 4 + n as u64;
        total = if next > u32::MAX as u64 {
            u32::MAX as u64
        } else {
            next
        };
        i += 1;
    }
    let framed: u64 = total + 2;
    if framed > u32::MAX as u64 {
        u32::MAX
    } else {
        framed as u32
    }
}

} // verus!
