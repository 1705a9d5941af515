//! The chat completion request as the client sends it, and the gateway's
//! configuration. Each type has a model (`deep_view`) over character
//! sequences.

use crate::upstream::{copy_opt, copy_tool_calls, ChatTool, ChatToolCall, ToolCallModel, ToolModel};
use vstd::prelude::*;

verus! {

#[derive(Debug, Clone, Copy, PartialEq, Eq, Structural)]
pub struct StreamOptions {
    pub include_usage: Option<bool>,
}

#[derive(Debug, Clone, Copy, PartialEq, Eq, Structural)]
pub struct ThinkingConfig {
    pub budget_tokens: Option<i32>,
}

#[derive(Debug, Clone, Copy, PartialEq, Eq, Structural)]
pub struct GoogleThinkingConfig {
    pub thinking_budget: Option<i32>,
}

#[derive(Debug, Clone, Copy, PartialEq, Eq, Structural)]
pub struct GoogleConfig {
    pub thinking_config: Option<GoogleThinkingConfig>,
}

#[derive(Debug, Clone, Copy, PartialEq, Eq, Structural)]
pub struct ExtraBody {
    pub google: Option<GoogleConfig>,
}

/// The `image_url` object of a content part.
#[derive(Debug)]
pub struct ImageUrlContent {
    pub url: String,
}

/// What a `tool_result` part carries: nothing, a text, or another JSON
/// value, held as its serialised text.
#[derive(Debug)]
pub enum ToolResultContent {
    Null,
    Text(String),
    Json(String),
}

pub enum ToolResultContentModel {
    Null,
    Text(Seq<char>),
    Json(Seq<char>),
}

impl DeepView for ToolResultContent {
    type V = ToolResultContentModel;

    open spec fn deep_view(&self) -> ToolResultContentModel {
        match self {
            ToolResultContent::Null => ToolResultContentModel::Null,
            ToolResultContent::Text(t) => ToolResultContentModel::Text(t@),
            ToolResultContent::Json(j) => ToolResultContentModel::Json(j@),
        }
    }
}

/// One part of a multipart content. A part of a kind that this gateway
/// does not know is `Other`, with its `type` and `text` members where they
/// are strings.
#[allow(inconsistent_fields)]
#[derive(Debug)]
pub enum OpenAiContentItem {
    Text { kind: Option<String>, text: String },
    ImageUrl { kind: Option<String>, image_url: ImageUrlContent },
    ToolResult {
        kind: Option<String>,
        id: Option<String>,
        tool_call_id: Option<String>,
        content: ToolResultContent,
    },
    InputAudio { kind: Option<String> },
    Other { kind: Option<String>, text: Option<String> },
}

#[allow(inconsistent_fields)]
pub enum ContentItemModel {
    Text { kind: Option<Seq<char>>, text: Seq<char> },
    ImageUrl { kind: Option<Seq<char>>, url: Seq<char> },
    ToolResult {
        kind: Option<Seq<char>>,
        id: Option<Seq<char>>,
        tool_call_id: Option<Seq<char>>,
        content: ToolResultContentModel,
    },
    InputAudio { kind: Option<Seq<char>> },
    Other { kind: Option<Seq<char>>, text: Option<Seq<char>> },
}

impl DeepView for OpenAiContentItem {
    type V = ContentItemModel;

    open spec fn deep_view(&self) -> ContentItemModel {
        match self {
            OpenAiContentItem::Text { kind, text } => ContentItemModel::Text {
                kind: kind.deep_view(),
                text: text@,
            },
            OpenAiContentItem::ImageUrl { kind, image_url } => ContentItemModel::ImageUrl {
                kind: kind.deep_view(),
                url: image_url.url@,
            },
            OpenAiContentItem::ToolResult {
                kind,
                id,
                tool_call_id,
                content,
            } => ContentItemModel::ToolResult {
                kind: kind.deep_view(),
                id: id.deep_view(),
                tool_call_id: tool_call_id.deep_view(),
                content: content.deep_view(),
            },
            OpenAiContentItem::InputAudio { kind } => ContentItemModel::InputAudio {
                kind: kind.deep_view(),
            },
            OpenAiContentItem::Other { kind, text } => ContentItemModel::Other {
                kind: kind.deep_view(),
                text: text.deep_view(),
            },
        }
    }
}

/// The `type` member of a part.
pub open spec fn item_kind(item: ContentItemModel) -> Option<Seq<char>> {
    match item {
        ContentItemModel::Text { kind, .. } => kind,
        ContentItemModel::ImageUrl { kind, .. } => kind,
        ContentItemModel::ToolResult { kind, .. } => kind,
        ContentItemModel::InputAudio { kind } => kind,
        ContentItemModel::Other { kind, .. } => kind,
    }
}

/// The `text` member of a part.
pub open spec fn item_plain_text(item: ContentItemModel) -> Option<Seq<char>> {
    match item {
        ContentItemModel::Text { text, .. } => Some(text),
        ContentItemModel::Other { text, .. } => text,
        _ => None,
    }
}

/// The URL of an image part.
pub open spec fn item_image_url(item: ContentItemModel) -> Option<Seq<char>> {
    match item {
        ContentItemModel::ImageUrl { url, .. } => Some(url),
        _ => None,
    }
}

impl OpenAiContentItem {
    pub fn copy(&self) -> (r: OpenAiContentItem)
        ensures
            r.deep_view() == self.deep_view(),
    {
        match self {
            OpenAiContentItem::Text { kind, text } => OpenAiContentItem::Text {
                kind: copy_opt(kind),
                text: text.clone(),
            },
            OpenAiContentItem::ImageUrl { kind, image_url } => OpenAiContentItem::ImageUrl {
                kind: copy_opt(kind),
                image_url: ImageUrlContent { url: image_url.url.clone() },
            },
            OpenAiContentItem::ToolResult {
                kind,
                id,
                tool_call_id,
                content,
            } => OpenAiContentItem::ToolResult {
                kind: copy_opt(kind),
                id: copy_opt(id),
                tool_call_id: copy_opt(tool_call_id),
                content: match content {
                    ToolResultContent::Null => ToolResultContent::Null,
                    ToolResultContent::Text(t) => ToolResultContent::Text(t.clone()),
                    ToolResultContent::Json(j) => ToolResultContent::Json(j.clone()),
                },
            },
            OpenAiContentItem::InputAudio { kind } => OpenAiContentItem::InputAudio {
                kind: copy_opt(kind),
            },
            OpenAiContentItem::Other { kind, text } => OpenAiContentItem::Other {
                kind: copy_opt(kind),
                text: copy_opt(text),
            },
        }
    }

    pub fn content_type(&self) -> (r: Option<&str>)
        ensures
            r.deep_view() == item_kind(self.deep_view()),
    {
        let kind = match self {
            OpenAiContentItem::Text { kind, .. } => kind,
            OpenAiContentItem::ImageUrl { kind, .. } => kind,
            OpenAiContentItem::ToolResult { kind, .. } => kind,
            OpenAiContentItem::InputAudio { kind } => kind,
            OpenAiContentItem::Other { kind, .. } => kind,
        };
        match kind {
            Some(k) => Some(k.as_str()),
            None => None,
        }
    }

    pub fn as_text(&self) -> (r: Option<&str>)
        ensures
            r.deep_view() == item_plain_text(self.deep_view()),
    {
        match self {
            OpenAiContentItem::Text { text, .. } => Some(text.as_str()),
            OpenAiContentItem::Other { text, .. } => match text {
                Some(t) => Some(t.as_str()),
                None => None,
            },
            _ => None,
        }
    }

    /// The image of an image part, for changing it in place.
    pub fn as_image_url_mut(&mut self) -> (r: Option<&mut ImageUrlContent>)
        ensures
            match r {
                Some(image) => {
                    &&& *old(self) is ImageUrl
                    &&& *image == old(self)->image_url
                    &&& *final(self) is ImageUrl
                    &&& final(self)->image_url == *final(image)
                    &&& final(self)->ImageUrl_kind == old(self)->ImageUrl_kind
                },
                None => !(*old(self) is ImageUrl) && *final(self) == *old(self),
            },
    {
        match self {
            OpenAiContentItem::ImageUrl { image_url, .. } => Some(image_url),
            _ => None,
        }
    }

    pub fn as_image_url(&self) -> (r: Option<&ImageUrlContent>)
        ensures
            match r {
                Some(image) => item_image_url(self.deep_view()) == Some(image.url@),
                None => item_image_url(self.deep_view()) is None,
            },
    {
        match self {
            OpenAiContentItem::ImageUrl { image_url, .. } => Some(image_url),
            _ => None,
        }
    }
}

/// The content of a message: one text, or parts.
#[derive(Debug)]
pub enum OpenAiContent {
    Text(String),
    Multi(Vec<OpenAiContentItem>),
}

pub enum ContentModel {
    Text(Seq<char>),
    Multi(Seq<ContentItemModel>),
}

impl DeepView for OpenAiContent {
    type V = ContentModel;

    open spec fn deep_view(&self) -> ContentModel {
        match self {
            OpenAiContent::Text(t) => ContentModel::Text(t@),
            OpenAiContent::Multi(items) => ContentModel::Multi(items.deep_view()),
        }
    }
}

/// Copies of the given parts, in the same order.
pub fn copy_items(items: &Vec<OpenAiContentItem>) -> (r: Vec<OpenAiContentItem>)
    ensures
        r.deep_view() == items.deep_view(),
{
    let mut r: Vec<OpenAiContentItem> = Vec::new();
    let mut i: usize = 0;
    while i < items.len()
        invariant
            i <= items.len(),
            r.len() == i,
            forall|k: int| 0 <= k < i ==> (#[trigger] r@[k]).deep_view() == items@[k].deep_view(),
        decreases items.len() - i,
    {
        r.push(items[i].copy());
        i += 1;
    }
    assert(r.deep_view() =~= items.deep_view());
    r
}

impl OpenAiContent {
    pub fn copy(&self) -> (r: OpenAiContent)
        ensures
            r.deep_view() == self.deep_view(),
    {
        match self {
            OpenAiContent::Text(t) => OpenAiContent::Text(t.clone()),
            OpenAiContent::Multi(items) => OpenAiContent::Multi(copy_items(items)),
        }
    }
}

/// One message of the conversation.
#[derive(Debug)]
pub struct Message {
    pub role: String,
    pub name: Option<String>,
    pub content: Option<OpenAiContent>,
    pub tool_calls: Option<Vec<ChatToolCall>>,
    pub tool_call_id: Option<String>,
}

pub struct MessageModel {
    pub role: Seq<char>,
    pub name: Option<Seq<char>>,
    pub content: Option<ContentModel>,
    pub tool_calls: Option<Seq<ToolCallModel>>,
    pub tool_call_id: Option<Seq<char>>,
}

impl DeepView for Message {
    type V = MessageModel;

    open spec fn deep_view(&self) -> MessageModel {
        MessageModel {
            role: self.role@,
            name: self.name.deep_view(),
            content: self.content.deep_view(),
            tool_calls: self.tool_calls.deep_view(),
            tool_call_id: self.tool_call_id.deep_view(),
        }
    }
}

impl Message {
    pub fn copy(&self) -> (r: Message)
        ensures
            r.deep_view() == self.deep_view(),
    {
        Message {
            role: self.role.clone(),
            name: copy_opt(&self.name),
            content: match &self.content {
                Some(c) => Some(c.copy()),
                None => None,
            },
            tool_calls: match &self.tool_calls {
                Some(calls) => Some(copy_tool_calls(calls)),
                None => None,
            },
            tool_call_id: copy_opt(&self.tool_call_id),
        }
    }
}

/// The settings of a request that the rules of this crate read. The
/// messages travel beside it.
#[derive(Debug)]
pub struct ChatCompletionRequest {
    pub model: String,
    pub messages: Vec<Message>,
    pub stop: Option<Vec<String>>,
    pub stream: Option<bool>,
    pub tools: Option<Vec<ChatTool>>,
    pub stream_options: Option<StreamOptions>,
    pub reasoning_effort: Option<String>,
    pub thinking: Option<ThinkingConfig>,
    pub extra_body: Option<ExtraBody>,
}

pub struct RequestModel {
    pub model: Seq<char>,
    pub messages: Seq<MessageModel>,
    pub stop: Option<Seq<Seq<char>>>,
    pub stream: Option<bool>,
    pub tools: Option<Seq<ToolModel>>,
    pub stream_options: Option<StreamOptions>,
    pub reasoning_effort: Option<Seq<char>>,
    pub thinking: Option<ThinkingConfig>,
    pub extra_body: Option<ExtraBody>,
}

impl DeepView for ChatCompletionRequest {
    type V = RequestModel;

    open spec fn deep_view(&self) -> RequestModel {
        RequestModel {
            model: self.model@,
            messages: self.messages.deep_view(),
            stop: self.stop.deep_view(),
            stream: self.stream,
            tools: self.tools.deep_view(),
            stream_options: self.stream_options,
            reasoning_effort: self.reasoning_effort.deep_view(),
            thinking: self.thinking,
            extra_body: self.extra_body,
        }
    }
}

impl ChatCompletionRequest {
    /// Whether the reply is to be streamed: only where the request says so.
    pub fn wants_stream(&self) -> (r: bool)
        ensures
            r == (self.stream == Some(true)),
    {
        match self.stream {
            Some(s) => s,
            None => false,
        }
    }

    /// Whether usage accounting is asked for: only where the stream
    /// options say so.
    pub fn wants_usage(&self) -> (r: bool)
        ensures
            r == (self.stream_options matches Some(o) && o.include_usage == Some(true)),
    {
        match self.stream_options {
            Some(o) => match o.include_usage {
                Some(u) => u,
                None => false,
            },
            None => false,
        }
    }
}

/// The override of one model in the configuration.
#[derive(Debug)]
pub struct ModelConfig {
    pub mapping: Option<String>,
    pub replace_response: Option<bool>,
    pub enable: Option<bool>,
}

pub struct ModelConfigModel {
    pub mapping: Option<Seq<char>>,
    pub replace_response: Option<bool>,
    pub enable: Option<bool>,
}

impl DeepView for ModelConfig {
    type V = ModelConfigModel;

    open spec fn deep_view(&self) -> ModelConfigModel {
        ModelConfigModel {
            mapping: self.mapping.deep_view(),
            replace_response: self.replace_response,
            enable: self.enable,
        }
    }
}

/// A model that the configuration adds to the catalogue.
#[derive(Debug)]
pub struct CustomModel {
    pub id: String,
    pub created: Option<i64>,
    pub owned_by: Option<String>,
}

pub struct CustomModelModel {
    pub id: Seq<char>,
    pub created: Option<i64>,
    pub owned_by: Option<Seq<char>>,
}

impl DeepView for CustomModel {
    type V = CustomModelModel;

    open spec fn deep_view(&self) -> CustomModelModel {
        CustomModelModel {
            id: self.id@,
            created: self.created,
            owned_by: self.owned_by.deep_view(),
        }
    }
}

/// The gateway's configuration. `models` holds the overrides by model id,
/// in the order in which they are consulted: the first that fits decides.
#[derive(Debug)]
pub struct Config {
    pub enable: Option<bool>,
    pub models: Vec<(String, ModelConfig)>,
    pub custom_models: Option<Vec<CustomModel>>,
    pub api_token: Option<String>,
    pub use_v1_api: Option<bool>,
}

pub struct ConfigModel {
    pub enable: Option<bool>,
    pub models: Seq<(Seq<char>, ModelConfigModel)>,
    pub custom_models: Option<Seq<CustomModelModel>>,
    pub api_token: Option<Seq<char>>,
    pub use_v1_api: Option<bool>,
}

impl DeepView for Config {
    type V = ConfigModel;

    open spec fn deep_view(&self) -> ConfigModel {
        ConfigModel {
            enable: self.enable,
            models: self.models.deep_view(),
            custom_models: self.custom_models.deep_view(),
            api_token: self.api_token.deep_view(),
            use_v1_api: self.use_v1_api,
        }
    }
}

/// The configuration that stands in for a missing file: disabled, with no
/// overrides.
pub open spec fn default_config() -> ConfigModel {
    ConfigModel {
        enable: Some(false),
        models: Seq::empty(),
        custom_models: None,
        api_token: None,
        use_v1_api: None,
    }
}

impl Config {
    /// Whether the configuration's rules apply.
    pub open spec fn is_enabled(model: ConfigModel) -> bool {
        model.enable == Some(true)
    }

    pub fn enabled(&self) -> (r: bool)
        ensures
            r == Config::is_enabled(self.deep_view()),
    {
        match self.enable {
            Some(e) => e,
            None => false,
        }
    }

    /// The configuration that stands in for a missing file.
    pub fn fallback() -> (r: Config)
        ensures
            r.deep_view() == default_config(),
    {
        let r = Config {
            enable: Some(false),
            models: Vec::new(),
            custom_models: None,
            api_token: None,
            use_v1_api: None,
        };
        assert(r.models.deep_view() =~= Seq::empty());
        r
    }
}

} // verus!
