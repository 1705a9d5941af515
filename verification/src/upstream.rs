//! The upstream bot service's data: events that it streams back and the
//! request that it accepts. Each type has a model (`deep_view`) over
//! character sequences, in which the contracts of this crate are stated.

use vstd::prelude::*;

verus! {

/// A file that the upstream attached to its reply.
#[derive(Debug)]
pub struct FileData {
    pub url: String,
    pub name: String,
    pub content_type: String,
    pub inline_ref: String,
}

pub struct FileDataModel {
    pub url: Seq<char>,
    pub name: Seq<char>,
    pub content_type: Seq<char>,
    pub inline_ref: Seq<char>,
}

impl DeepView for FileData {
    type V = FileDataModel;

    open spec fn deep_view(&self) -> FileDataModel {
        FileDataModel {
            url: self.url@,
            name: self.name@,
            content_type: self.content_type@,
            inline_ref: self.inline_ref@,
        }
    }
}

impl FileData {
    pub fn copy(&self) -> (r: FileData)
        ensures
            r.deep_view() == self.deep_view(),
    {
        FileData {
            url: self.url.clone(),
            name: self.name.clone(),
            content_type: self.content_type.clone(),
            inline_ref: self.inline_ref.clone(),
        }
    }
}

/// The function half of a tool call: which function, with which arguments
/// (a JSON text that this crate passes on unread).
#[derive(Debug)]
pub struct FunctionCall {
    pub name: String,
    pub arguments: String,
}

/// One call of a tool, as an assistant message or an upstream event states it.
#[derive(Debug)]
pub struct ChatToolCall {
    pub id: String,
    pub kind: String,
    pub function: FunctionCall,
}

pub struct ToolCallModel {
    pub id: Seq<char>,
    pub kind: Seq<char>,
    pub name: Seq<char>,
    pub arguments: Seq<char>,
}

impl DeepView for ChatToolCall {
    type V = ToolCallModel;

    open spec fn deep_view(&self) -> ToolCallModel {
        ToolCallModel {
            id: self.id@,
            kind: self.kind@,
            name: self.function.name@,
            arguments: self.function.arguments@,
        }
    }
}

impl ChatToolCall {
    pub fn copy(&self) -> (r: ChatToolCall)
        ensures
            r.deep_view() == self.deep_view(),
    {
        ChatToolCall {
            id: self.id.clone(),
            kind: self.kind.clone(),
            function: FunctionCall {
                name: self.function.name.clone(),
                arguments: self.function.arguments.clone(),
            },
        }
    }
}

/// Copies of the given tool calls, in the same order.
pub fn copy_tool_calls(calls: &Vec<ChatToolCall>) -> (r: Vec<ChatToolCall>)
    ensures
        r.deep_view() == calls.deep_view(),
{
    let mut r: Vec<ChatToolCall> = Vec::new();
    let mut i: usize = 0;
    while i < calls.len()
        invariant
            i <= calls.len(),
            r.deep_view() == calls.deep_view().take(i as int),
        decreases calls.len() - i,
    {
        let ghost before = r.deep_view();
        r.push(calls[i].copy());
        assert(r.deep_view() =~= before.push(calls@[i as int].deep_view()));
        assert(calls.deep_view().take(i + 1) =~= calls.deep_view().take(i as int).push(
            calls@[i as int].deep_view(),
        ));
        i += 1;
    }
    assert(calls.deep_view().take(calls.len() as int) =~= calls.deep_view());
    r
}

/// The kind of an upstream event.
#[derive(Debug, Clone, Copy, PartialEq, Eq, Structural)]
pub enum ChatEventType {
    Text,
    ReplaceResponse,
    Json,
    File,
    Done,
    Error,
}

/// What an upstream event carries.
#[derive(Debug)]
pub enum ChatResponseData {
    Text { text: String },
    Error { text: String, allow_retry: bool },
    ToolCalls(Vec<ChatToolCall>),
    File(FileData),
    Empty,
}

pub enum ResponseDataModel {
    Text { text: Seq<char> },
    Error { text: Seq<char>, allow_retry: bool },
    ToolCalls(Seq<ToolCallModel>),
    File(FileDataModel),
    Empty,
}

impl DeepView for ChatResponseData {
    type V = ResponseDataModel;

    open spec fn deep_view(&self) -> ResponseDataModel {
        match self {
            ChatResponseData::Text { text } => ResponseDataModel::Text { text: text@ },
            ChatResponseData::Error { text, allow_retry } => ResponseDataModel::Error {
                text: text@,
                allow_retry: *allow_retry,
            },
            ChatResponseData::ToolCalls(calls) => ResponseDataModel::ToolCalls(calls.deep_view()),
            ChatResponseData::File(file) => ResponseDataModel::File(file.deep_view()),
            ChatResponseData::Empty => ResponseDataModel::Empty,
        }
    }
}

/// One event of the upstream's reply stream.
#[derive(Debug)]
pub struct ChatResponse {
    pub event: ChatEventType,
    pub data: Option<ChatResponseData>,
}

pub struct ResponseModel {
    pub event: ChatEventType,
    pub data: Option<ResponseDataModel>,
}

impl DeepView for ChatResponse {
    type V = ResponseModel;

    open spec fn deep_view(&self) -> ResponseModel {
        ResponseModel { event: self.event, data: self.data.deep_view() }
    }
}

/// A file handed to the upstream together with a message.
#[derive(Debug)]
pub struct Attachment {
    pub url: String,
    pub content_type: Option<String>,
}

pub struct AttachmentModel {
    pub url: Seq<char>,
    pub content_type: Option<Seq<char>>,
}

impl DeepView for Attachment {
    type V = AttachmentModel;

    open spec fn deep_view(&self) -> AttachmentModel {
        AttachmentModel { url: self.url@, content_type: self.content_type.deep_view() }
    }
}

/// One message of the upstream request.
#[derive(Debug)]
pub struct ChatMessage {
    pub role: String,
    pub content: String,
    pub attachments: Option<Vec<Attachment>>,
    pub content_type: String,
}

pub struct ChatMessageModel {
    pub role: Seq<char>,
    pub content: Seq<char>,
    pub attachments: Option<Seq<AttachmentModel>>,
    pub content_type: Seq<char>,
}

impl DeepView for ChatMessage {
    type V = ChatMessageModel;

    open spec fn deep_view(&self) -> ChatMessageModel {
        ChatMessageModel {
            role: self.role@,
            content: self.content@,
            attachments: self.attachments.deep_view(),
            content_type: self.content_type@,
        }
    }
}

/// The result of a tool, handed back to the upstream.
#[derive(Debug)]
pub struct ChatToolResult {
    pub role: String,
    pub tool_call_id: String,
    pub name: String,
    pub content: String,
}

pub struct ToolResultModel {
    pub role: Seq<char>,
    pub tool_call_id: Seq<char>,
    pub name: Seq<char>,
    pub content: Seq<char>,
}

impl DeepView for ChatToolResult {
    type V = ToolResultModel;

    open spec fn deep_view(&self) -> ToolResultModel {
        ToolResultModel {
            role: self.role@,
            tool_call_id: self.tool_call_id@,
            name: self.name@,
            content: self.content@,
        }
    }
}

/// The description of a function that a tool offers. `parameters` is the
/// JSON text of its schema, which this crate passes on unread.
#[derive(Debug)]
pub struct FunctionDefinition {
    pub name: String,
    pub description: Option<String>,
    pub parameters: Option<String>,
}

/// A tool that the model may call.
#[derive(Debug)]
pub struct ChatTool {
    pub kind: String,
    pub function: FunctionDefinition,
}

pub struct ToolModel {
    pub kind: Seq<char>,
    pub name: Seq<char>,
    pub description: Option<Seq<char>>,
    pub parameters: Option<Seq<char>>,
}

impl DeepView for ChatTool {
    type V = ToolModel;

    open spec fn deep_view(&self) -> ToolModel {
        ToolModel {
            kind: self.kind@,
            name: self.function.name@,
            description: self.function.description.deep_view(),
            parameters: self.function.parameters.deep_view(),
        }
    }
}

/// A copy of an optional string.
pub fn copy_opt(s: &Option<String>) -> (r: Option<String>)
    ensures
        r.deep_view() == s.deep_view(),
{
    match s {
        Some(x) => Some(x.clone()),
        None => None,
    }
}

impl ChatTool {
    pub fn copy(&self) -> (r: ChatTool)
        ensures
            r.deep_view() == self.deep_view(),
    {
        ChatTool {
            kind: self.kind.clone(),
            function: FunctionDefinition {
                name: self.function.name.clone(),
                description: copy_opt(&self.function.description),
                parameters: copy_opt(&self.function.parameters),
            },
        }
    }
}

impl Default for ChatTool {
    /// A tool of kind `function` with an empty name and nothing else.
    fn default() -> (r: ChatTool)
        ensures
            r.deep_view() == (ToolModel {
                kind: "function"@,
                name: Seq::<char>::empty(),
                description: None,
                parameters: None,
            }),
    {
        ChatTool {
            kind: "function".to_owned(),
            function: FunctionDefinition { name: String::new(), description: None, parameters: None },
        }
    }
}

/// The request that goes to the upstream.
#[derive(Debug)]
pub struct ChatRequest {
    pub version: String,
    pub kind: String,
    pub query: Vec<ChatMessage>,
    pub user_id: String,
    pub conversation_id: String,
    pub message_id: String,
    pub tools: Option<Vec<ChatTool>>,
    pub tool_calls: Option<Vec<ChatToolCall>>,
    pub tool_results: Option<Vec<ChatToolResult>>,
    pub stop_sequences: Option<Vec<String>>,
}

pub struct ChatRequestModel {
    pub version: Seq<char>,
    pub kind: Seq<char>,
    pub query: Seq<ChatMessageModel>,
    pub user_id: Seq<char>,
    pub conversation_id: Seq<char>,
    pub message_id: Seq<char>,
    pub tools: Option<Seq<ToolModel>>,
    pub tool_calls: Option<Seq<ToolCallModel>>,
    pub tool_results: Option<Seq<ToolResultModel>>,
    pub stop_sequences: Option<Seq<Seq<char>>>,
}

impl DeepView for ChatRequest {
    type V = ChatRequestModel;

    open spec fn deep_view(&self) -> ChatRequestModel {
        ChatRequestModel {
            version: self.version@,
            kind: self.kind@,
            query: self.query.deep_view(),
            user_id: self.user_id@,
            conversation_id: self.conversation_id@,
            message_id: self.message_id@,
            tools: self.tools.deep_view(),
            tool_calls: self.tool_calls.deep_view(),
            tool_results: self.tool_results.deep_view(),
            stop_sequences: self.stop_sequences.deep_view(),
        }
    }
}

/// One model of the upstream's catalogue.
#[derive(Debug)]
pub struct ModelInfo {
    pub id: String,
    pub object: String,
    pub created: i64,
    pub owned_by: String,
}

pub struct ModelInfoModel {
    pub id: Seq<char>,
    pub object: Seq<char>,
    pub created: i64,
    pub owned_by: Seq<char>,
}

impl DeepView for ModelInfo {
    type V = ModelInfoModel;

    open spec fn deep_view(&self) -> ModelInfoModel {
        ModelInfoModel {
            id: self.id@,
            object: self.object@,
            created: self.created,
            owned_by: self.owned_by@,
        }
    }
}

} // verus!
