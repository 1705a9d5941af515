//! Tool calls and their results: which tools go upstream, which call a
//! tool message answers, and whether every answer has its call.

use crate::chat::{Message, MessageModel};
use crate::content::{content_text, get_text_from_openai_content};
use crate::json::{json_member, json_member_string};
use crate::split::{is_blank, str_is_blank};
use crate::text::{
    chars_of, concat, find, find_from, find_in, str_eq, string_of, subvec,
};
use crate::upstream::{ChatTool, ChatToolCall, ToolCallModel, ToolModel};
use vstd::prelude::*;

verus! {

// ---------------------------------------------------------------------
// Tools

/// The tools from index `i` on that have a name.
pub open spec fn named_tools(tools: Seq<ToolModel>, i: int) -> Seq<ToolModel>
    decreases tools.len() - i,
{
    if i < 0 || i >= tools.len() {
        Seq::empty()
    } else if is_blank(tools[i].name) {
        named_tools(tools, i + 1)
    } else {
        seq![tools[i]] + named_tools(tools, i + 1)
    }
}

/// The tools that go upstream: those with a name, in their order; none
/// at all where no tool has a name.
pub open spec fn upstream_tools(tools: Option<Seq<ToolModel>>) -> Option<Seq<ToolModel>> {
    match tools {
        Some(t) => if named_tools(t, 0).len() > 0 {
            Some(named_tools(t, 0))
        } else {
            None
        },
        None => None,
    }
}

/// Drops the tools without a name. A tool without a description stays.
pub fn filter_tools_for_poe(tools: &Option<Vec<ChatTool>>) -> (r: Option<Vec<ChatTool>>)
    ensures
        r.deep_view() == upstream_tools(tools.deep_view()),
{
    match tools {
        Some(all) => {
            let mut kept: Vec<ChatTool> = Vec::new();
            assert(kept.deep_view() =~= Seq::<ToolModel>::empty());
            let mut i: usize = 0;
            while i < all.len()
                invariant
                    i <= all.len(),
                    named_tools(all.deep_view(), 0) == kept.deep_view() + named_tools(
                        all.deep_view(),
                        i as int,
                    ),
                decreases all.len() - i,
            {
                assert(all.deep_view()[i as int] == all@[i as int].deep_view());
                if !str_is_blank(all[i].function.name.as_str()) {
                    let ghost before = kept.deep_view();
                    kept.push(all[i].copy());
                    assert(kept.deep_view() =~= before.push(all@[i as int].deep_view()));
                    assert(before + (seq![all@[i as int].deep_view()] + named_tools(
                        all.deep_view(),
                        i + 1,
                    )) =~= kept.deep_view() + named_tools(all.deep_view(), i + 1));
                }
                i += 1;
            }
            assert(kept.deep_view() + Seq::<ToolModel>::empty() =~= kept.deep_view());
            if kept.len() > 0 {
                Some(kept)
            } else {
                None
            }
        },
        None => None,
    }
}

// ---------------------------------------------------------------------
// The id of the call that a tool message answers

/// The double quote as a text.
pub open spec fn quote() -> Seq<char> {
    seq!['"']
}

/// The text between the first two double quotes at or after the first
/// occurrence of `key`.
pub open spec fn quoted_after(content: Seq<char>, key: Seq<char>) -> Option<Seq<char>> {
    match find(content, key) {
        Some(start) => match find_from(content, quote(), start) {
            Some(first) => match find_from(content, quote(), first + 1) {
                Some(second) => Some(content.subrange(first + 1, second)),
                None => None,
            },
            None => None,
        },
        None => None,
    }
}

/// The tool call id that a content names: the string member
/// `tool_call_id` where the content is a JSON object that has it, else the
/// first quoted text after the word `tool_call_id`.
pub open spec fn extracted_tool_call_id(content: Seq<char>) -> Option<Seq<char>> {
    match json_member_string(content, "tool_call_id"@) {
        Some(id) => Some(id),
        None => quoted_after(content, "tool_call_id"@),
    }
}

/// The id for a member that the JSON library found, or did not find, in
/// `content`.
pub fn tool_call_id_from(content: &str, member: Option<String>) -> (r: Option<String>)
    ensures
        r.deep_view() == match member.deep_view() {
            Some(id) => Some(id),
            None => quoted_after(content@, "tool_call_id"@),
        },
{
    match member {
        Some(id) => Some(id),
        None => {
            let text = chars_of(content);
            let key = chars_of("tool_call_id");
            let mut q: Vec<char> = Vec::new();
            q.push('"');
            assert(q@ =~= quote());
            match find_in(&text, &key, 0) {
                Some(start) => match find_in(&text, &q, start) {
                    Some(first) => match find_in(&text, &q, first + 1) {
                        Some(second) => Some(string_of(&subvec(&text, first + 1, second))),
                        None => None,
                    },
                    None => None,
                },
                None => None,
            }
        },
    }
}

/// The tool call id that a tool message's content names.
pub fn extract_tool_call_id(content: &str) -> (r: Option<String>)
    ensures
        r.deep_view() == extracted_tool_call_id(content@),
{
    tool_call_id_from(content, json_member(content, "tool_call_id"))
}

/// The id of the call that a tool message answers: its `tool_call_id`
/// field, else what its content names.
pub open spec fn message_call_id(m: MessageModel) -> Option<Seq<char>> {
    match m.tool_call_id {
        Some(id) => Some(id),
        None => extracted_tool_call_id(content_text(m.content)),
    }
}

pub fn tool_call_id_of(message: &Message) -> (r: Option<String>)
    ensures
        r.deep_view() == message_call_id(message.deep_view()),
{
    match &message.tool_call_id {
        Some(id) => Some(id.clone()),
        None => {
            let text = get_text_from_openai_content(&message.content);
            extract_tool_call_id(text.as_str())
        },
    }
}

// ---------------------------------------------------------------------
// The calls of the conversation

/// The role of messages that carry tool results.
pub open spec fn tool_role() -> Seq<char> {
    "tool"@
}

/// The role of messages that carry tool calls.
pub open spec fn assistant_role() -> Seq<char> {
    "assistant"@
}

/// The tool calls of one message, where it is an assistant message.
pub open spec fn message_calls(m: MessageModel) -> Seq<ToolCallModel> {
    if m.role == assistant_role() {
        match m.tool_calls {
            Some(calls) => calls,
            None => Seq::empty(),
        }
    } else {
        Seq::empty()
    }
}

/// The tool calls of the assistant messages from index `i` on, in order.
pub open spec fn assistant_calls(messages: Seq<MessageModel>, i: int) -> Seq<ToolCallModel>
    decreases messages.len() - i,
{
    if i < 0 || i >= messages.len() {
        Seq::empty()
    } else {
        message_calls(messages[i]) + assistant_calls(messages, i + 1)
    }
}

/// A call with the given id is among `calls`.
pub open spec fn has_call(calls: Seq<ToolCallModel>, id: Seq<char>) -> bool {
    exists|k: int| 0 <= k < calls.len() && (#[trigger] calls[k]).id == id
}

/// The number of tool messages from index `i` on.
pub open spec fn tool_message_count(messages: Seq<MessageModel>, i: int) -> nat
    decreases messages.len() - i,
{
    if i < 0 || i >= messages.len() {
        0
    } else if messages[i].role == tool_role() {
        1 + tool_message_count(messages, i + 1)
    } else {
        tool_message_count(messages, i + 1)
    }
}

pub fn collect_assistant_calls(messages: &Vec<Message>) -> (r: Vec<ChatToolCall>)
    ensures
        r.deep_view() == assistant_calls(messages.deep_view(), 0),
{
    let mut out: Vec<ChatToolCall> = Vec::new();
    assert(out.deep_view() =~= Seq::<ToolCallModel>::empty());
    let mut i: usize = 0;
    while i < messages.len()
        invariant
            i <= messages.len(),
            assistant_calls(messages.deep_view(), 0) == out.deep_view() + assistant_calls(
                messages.deep_view(),
                i as int,
            ),
        decreases messages.len() - i,
    {
        assert(messages.deep_view()[i as int] == messages@[i as int].deep_view());
        let ghost before = out.deep_view();
        let ghost rest = assistant_calls(messages.deep_view(), i + 1);
        if str_eq(messages[i].role.as_str(), "assistant") {
            match &messages[i].tool_calls {
                Some(calls) => {
                    let mut k: usize = 0;
                    while k < calls.len()
                        invariant
                            k <= calls.len(),
                            out.deep_view() == before + calls.deep_view().take(k as int),
                        decreases calls.len() - k,
                    {
                        let ghost mid = out.deep_view();
                        out.push(calls[k].copy());
                        assert(out.deep_view() =~= mid.push(calls@[k as int].deep_view()));
                        assert(out.deep_view() =~= before + calls.deep_view().take(k + 1));
                        k += 1;
                    }
                    assert(calls.deep_view().take(calls.len() as int) =~= calls.deep_view());
                    assert(before + (calls.deep_view() + rest) =~= out.deep_view() + rest);
                },
                None => {
                    assert(before + (Seq::<ToolCallModel>::empty() + rest) =~= out.deep_view()
                        + rest);
                },
            }
        } else {
            assert(before + (Seq::<ToolCallModel>::empty() + rest) =~= out.deep_view() + rest);
        }
        i += 1;
    }
    assert(out.deep_view() + Seq::<ToolCallModel>::empty() =~= out.deep_view());
    out
}

pub fn count_tool_messages(messages: &Vec<Message>) -> (r: usize)
    ensures
        r == tool_message_count(messages.deep_view(), 0),
{
    let mut n: usize = 0;
    let mut i: usize = 0;
    while i < messages.len()
        invariant
            i <= messages.len(),
            n <= i,
            tool_message_count(messages.deep_view(), 0) == n + tool_message_count(
                messages.deep_view(),
                i as int,
            ),
        decreases messages.len() - i,
    {
        assert(messages.deep_view()[i as int] == messages@[i as int].deep_view());
        if str_eq(messages[i].role.as_str(), "tool") {
            n += 1;
        }
        i += 1;
    }
    n
}

pub fn find_call(calls: &Vec<ChatToolCall>, id: &str) -> (r: bool)
    ensures
        r == has_call(calls.deep_view(), id@),
{
    let mut k: usize = 0;
    while k < calls.len()
        invariant
            k <= calls.len(),
            forall|j: int| 0 <= j < k ==> (#[trigger] calls.deep_view()[j]).id != id@,
        decreases calls.len() - k,
    {
        assert(calls.deep_view()[k as int] == calls@[k as int].deep_view());
        if str_eq(calls[k].id.as_str(), id) {
            return true;
        }
        k += 1;
    }
    false
}

// ---------------------------------------------------------------------
// Validation

/// Why a conversation's tool messages are refused.
#[derive(Debug)]
pub enum ToolSequenceError {
    /// There are tool messages, but no assistant message has tool calls.
    NoToolCalls { tool_messages: usize },
    /// A tool message names no call. `preview` is the beginning of its
    /// content.
    MissingId { preview: String },
    /// A tool message answers a call that no assistant message made.
    UnknownId { tool_call_id: String },
}

pub enum ToolSequenceFault {
    NoToolCalls { tool_messages: usize },
    MissingId { preview: Seq<char> },
    UnknownId { tool_call_id: Seq<char> },
}

impl DeepView for ToolSequenceError {
    type V = ToolSequenceFault;

    open spec fn deep_view(&self) -> ToolSequenceFault {
        match self {
            ToolSequenceError::NoToolCalls { tool_messages } => ToolSequenceFault::NoToolCalls {
                tool_messages: *tool_messages,
            },
            ToolSequenceError::MissingId { preview } => ToolSequenceFault::MissingId {
                preview: preview@,
            },
            ToolSequenceError::UnknownId { tool_call_id } => ToolSequenceFault::UnknownId {
                tool_call_id: tool_call_id@,
            },
        }
    }
}

/// The first hundred characters of a text.
pub open spec fn preview_of(text: Seq<char>) -> Seq<char> {
    if text.len() > 100 {
        text.take(100)
    } else {
        text
    }
}

/// The fault of the first tool message from index `i` on that names no
/// call, or a call that is not among `calls`.
pub open spec fn first_fault(messages: Seq<MessageModel>, calls: Seq<ToolCallModel>, i: int) -> Option<
    ToolSequenceFault,
>
    decreases messages.len() - i,
{
    if i < 0 || i >= messages.len() {
        None
    } else if messages[i].role == tool_role() {
        match message_call_id(messages[i]) {
            None => Some(
                ToolSequenceFault::MissingId {
                    preview: preview_of(content_text(messages[i].content)),
                },
            ),
            Some(id) => if has_call(calls, id) {
                first_fault(messages, calls, i + 1)
            } else {
                Some(ToolSequenceFault::UnknownId { tool_call_id: id })
            },
        }
    } else {
        first_fault(messages, calls, i + 1)
    }
}

/// The verdict on a conversation's tool messages.
pub open spec fn tool_sequence_check(messages: Seq<MessageModel>) -> Result<(), ToolSequenceFault> {
    let calls = assistant_calls(messages, 0);
    if tool_message_count(messages, 0) == 0 {
        Ok(())
    } else if calls.len() == 0 {
        Err(
            ToolSequenceFault::NoToolCalls {
                tool_messages: tool_message_count(messages, 0) as usize,
            },
        )
    } else {
        match first_fault(messages, calls, 0) {
            Some(fault) => Err(fault),
            None => Ok(()),
        }
    }
}

/// Every tool message names a call that an assistant message made.
pub open spec fn tool_results_answer_calls(messages: Seq<MessageModel>) -> bool {
    forall|t: int|
        0 <= t < messages.len() && (#[trigger] messages[t]).role == tool_role() ==> (
        message_call_id(messages[t]) matches Some(id) && has_call(assistant_calls(messages, 0), id))
}

proof fn lemma_count_zero(messages: Seq<MessageModel>, i: int)
    requires
        0 <= i,
    ensures
        tool_message_count(messages, i) == 0 <==> forall|t: int|
            i <= t < messages.len() ==> (#[trigger] messages[t]).role != tool_role(),
    decreases messages.len() - i,
{
    if i < messages.len() {
        lemma_count_zero(messages, i + 1);
        if tool_message_count(messages, i) == 0 {
            assert forall|t: int| i <= t < messages.len() implies (#[trigger] messages[t]).role
                != tool_role() by {
                if t > i {
                }
            }
        } else if messages[i].role != tool_role() {
            assert(tool_message_count(messages, i + 1) != 0);
        }
    }
}

proof fn lemma_first_fault(messages: Seq<MessageModel>, calls: Seq<ToolCallModel>, i: int)
    requires
        0 <= i,
    ensures
        first_fault(messages, calls, i) is None <==> forall|t: int|
            i <= t < messages.len() && (#[trigger] messages[t]).role == tool_role() ==> (
            message_call_id(messages[t]) matches Some(id) && has_call(calls, id)),
    decreases messages.len() - i,
{
    if i < messages.len() {
        lemma_first_fault(messages, calls, i + 1);
        if first_fault(messages, calls, i) is None {
            assert forall|t: int|
                i <= t < messages.len() && (#[trigger] messages[t]).role
                    == tool_role() implies (message_call_id(messages[t]) matches Some(id)
                && has_call(calls, id)) by {
                if t > i {
                }
            }
        }
    }
}

/// The tool messages of a conversation are accepted exactly when each of
/// them names a call that some assistant message of the conversation
/// made.
pub proof fn lemma_tool_result_integrity(messages: Seq<MessageModel>)
    ensures
        tool_sequence_check(messages) is Ok <==> tool_results_answer_calls(messages),
{
    let calls = assistant_calls(messages, 0);
    lemma_count_zero(messages, 0);
    lemma_first_fault(messages, calls, 0);
    if tool_message_count(messages, 0) != 0 && calls.len() == 0 {
        let t = choose|t: int| 0 <= t < messages.len() && (#[trigger] messages[t]).role == tool_role();
        assert(!(message_call_id(messages[t]) matches Some(id) && has_call(calls, id)));
    }
}

/// The tool calls of the assistant messages before index `t`.
pub open spec fn prior_calls(messages: Seq<MessageModel>, t: int) -> Seq<ToolCallModel> {
    assistant_calls(messages.take(t), 0)
}

/// Every tool message names a call that an assistant message before it
/// made.
pub open spec fn tool_results_answer_prior_calls(messages: Seq<MessageModel>) -> bool {
    forall|t: int|
        0 <= t < messages.len() && (#[trigger] messages[t]).role == tool_role() ==> (
        message_call_id(messages[t]) matches Some(id) && has_call(prior_calls(messages, t), id))
}

/// No tool message names a call that only a later assistant message
/// makes.
pub open spec fn calls_precede_results(messages: Seq<MessageModel>) -> bool {
    forall|t: int|
        0 <= t < messages.len() && (#[trigger] messages[t]).role == tool_role() ==> (
        message_call_id(messages[t]) matches Some(id) ==> (has_call(
            assistant_calls(messages, 0),
            id,
        ) ==> has_call(prior_calls(messages, t), id)))
}

proof fn lemma_calls_split(messages: Seq<MessageModel>, t: int, i: int)
    requires
        0 <= i <= t <= messages.len(),
    ensures
        assistant_calls(messages, i) == assistant_calls(messages.take(t), i) + assistant_calls(
            messages,
            t,
        ),
    decreases t - i,
{
    if i < t {
        lemma_calls_split(messages, t, i + 1);
        assert(messages.take(t)[i] == messages[i]);
        assert(message_calls(messages[i]) + (assistant_calls(messages.take(t), i + 1)
            + assistant_calls(messages, t)) =~= (message_calls(messages[i]) + assistant_calls(
            messages.take(t),
            i + 1,
        )) + assistant_calls(messages, t));
    } else {
        assert(assistant_calls(messages.take(t), i) =~= Seq::<ToolCallModel>::empty());
        assert(Seq::<ToolCallModel>::empty() + assistant_calls(messages, t) =~= assistant_calls(
            messages,
            t,
        ));
    }
}

/// Where no tool message names a call that only a later assistant message
/// makes, the tool messages are accepted exactly when each of them names a
/// call that an assistant message before it made.
pub proof fn lemma_tool_results_answer_prior_calls(messages: Seq<MessageModel>)
    requires
        calls_precede_results(messages),
    ensures
        tool_sequence_check(messages) is Ok <==> tool_results_answer_prior_calls(messages),
{
    lemma_tool_result_integrity(messages);
    let all = assistant_calls(messages, 0);
    if tool_results_answer_prior_calls(messages) {
        assert forall|t: int|
            0 <= t < messages.len() && (#[trigger] messages[t]).role == tool_role() implies (
        message_call_id(messages[t]) matches Some(id) && has_call(all, id)) by {
            let id = message_call_id(messages[t])->0;
            lemma_calls_split(messages, t, 0);
            let prior = prior_calls(messages, t);
            let k = choose|k: int| 0 <= k < prior.len() && (#[trigger] prior[k]).id == id;
            assert(all[k] == prior[k]);
        }
    }
    if tool_results_answer_calls(messages) {
        assert forall|t: int|
            0 <= t < messages.len() && (#[trigger] messages[t]).role == tool_role() implies (
        message_call_id(messages[t]) matches Some(id) && has_call(
            prior_calls(messages, t),
            id,
        )) by {
        }
    }
}

/// Checks that every tool message answers a tool call of the
/// conversation.
pub fn validate_tool_sequence(messages: &Vec<Message>) -> (r: Result<(), ToolSequenceError>)
    ensures
        match r {
            Ok(_) => tool_sequence_check(messages.deep_view()) is Ok,
            Err(e) => tool_sequence_check(messages.deep_view()) == Err::<(), ToolSequenceFault>(
                e.deep_view(),
            ),
        },
{
    let count = count_tool_messages(messages);
    if count == 0 {
        return Ok(());
    }
    let calls = collect_assistant_calls(messages);
    if calls.len() == 0 {
        return Err(ToolSequenceError::NoToolCalls { tool_messages: count });
    }
    let mut i: usize = 0;
    while i < messages.len()
        invariant
            i <= messages.len(),
            calls.deep_view() == assistant_calls(messages.deep_view(), 0),
            calls.len() > 0,
            tool_message_count(messages.deep_view(), 0) != 0,
            first_fault(messages.deep_view(), calls.deep_view(), 0) == first_fault(
                messages.deep_view(),
                calls.deep_view(),
                i as int,
            ),
        decreases messages.len() - i,
    {
        assert(messages.deep_view()[i as int] == messages@[i as int].deep_view());
        if str_eq(messages[i].role.as_str(), "tool") {
            match tool_call_id_of(&messages[i]) {
                None => {
                    let text = chars_of(get_text_from_openai_content(&messages[i].content).as_str());
                    let preview = if text.len() > 100 {
                        subvec(&text, 0, 100)
                    } else {
                        text
                    };
                    return Err(ToolSequenceError::MissingId { preview: string_of(&preview) });
                },
                Some(id) => {
                    if !find_call(&calls, id.as_str()) {
                        return Err(ToolSequenceError::UnknownId { tool_call_id: id });
                    }
                },
            }
        }
        i += 1;
    }
    Ok(())
}

impl ToolSequenceError {
    /// The fault in words, for the error body.
    pub fn message(&self) -> (r: String)
        ensures
            r@ == match self.deep_view() {
                ToolSequenceFault::NoToolCalls { tool_messages } =>
                    "Tool messages present but no assistant messages with tool_calls found in conversation"@,
                ToolSequenceFault::MissingId { preview } =>
                    "Tool message missing tool_call_id field and cannot extract from content: "@
                        + preview,
                ToolSequenceFault::UnknownId { tool_call_id } =>
                    "Tool message references unknown tool_call_id: "@ + tool_call_id,
            },
    {
        match self {
            ToolSequenceError::NoToolCalls { tool_messages } => crate::text::copy_str(
                "Tool messages present but no assistant messages with tool_calls found in conversation",
            ),
            ToolSequenceError::MissingId { preview } => concat(
                "Tool message missing tool_call_id field and cannot extract from content: ",
                preview.as_str(),
            ),
            ToolSequenceError::UnknownId { tool_call_id } => concat(
                "Tool message references unknown tool_call_id: ",
                tool_call_id.as_str(),
            ),
        }
    }
}

} // verus!
