//! The images of a conversation: where they stand, how their addresses
//! are replaced by CDN URLs, and how the images of the last reply are
//! handed back to the model.

use crate::chat::{
    copy_items, ContentItemModel, ContentModel, ImageUrlContent, Message, MessageModel,
    OpenAiContent, OpenAiContentItem,
};
use crate::media::{cdn_prefix, extract_poe_cdn_urls_from_message, is_poe_cdn_url, message_cdn_urls};
use crate::text::{copy_str, starts_with, str_eq, str_starts_with};
use crate::upstream::copy_opt;
use vstd::prelude::*;

verus! {

/// What an uploaded source URL is taken to weigh in the cache: one
/// mebibyte.
pub const REMOTE_FILE_SIZE_ESTIMATE: usize = 1048576;

/// What has to be done with the address of an image.
#[derive(Debug, Clone, Copy, PartialEq, Eq, Structural)]
pub enum UrlKind {
    /// A data URI: its payload is uploaded.
    Data,
    /// A URL of the upstream's CDN: it stays.
    Cdn,
    /// Any other URL: the upstream fetches it.
    External,
}

pub open spec fn url_kind(url: Seq<char>) -> UrlKind {
    if starts_with(url, "data:"@) {
        UrlKind::Data
    } else if starts_with(url, cdn_prefix()) {
        UrlKind::Cdn
    } else {
        UrlKind::External
    }
}

pub fn classify_url(url: &str) -> (r: UrlKind)
    ensures
        r == url_kind(url@),
{
    if str_starts_with(url, "data:") {
        UrlKind::Data
    } else if is_poe_cdn_url(url) {
        UrlKind::Cdn
    } else {
        UrlKind::External
    }
}

/// The place of an image in a conversation, and its address.
#[derive(Debug)]
pub struct ImageSlot {
    pub message: usize,
    pub item: usize,
    pub url: String,
}

pub struct SlotModel {
    pub message: int,
    pub item: int,
    pub url: Seq<char>,
}

impl DeepView for ImageSlot {
    type V = SlotModel;

    open spec fn deep_view(&self) -> SlotModel {
        SlotModel { message: self.message as int, item: self.item as int, url: self.url@ }
    }
}

/// The images of the given kind among the parts from index `i` on.
pub open spec fn item_slots(items: Seq<ContentItemModel>, m: int, kind: UrlKind, i: int) -> Seq<
    SlotModel,
>
    decreases items.len() - i,
{
    if i < 0 || i >= items.len() {
        Seq::empty()
    } else {
        match items[i] {
            ContentItemModel::ImageUrl { url, .. } => if url_kind(url) == kind {
                seq![SlotModel { message: m, item: i, url }] + item_slots(items, m, kind, i + 1)
            } else {
                item_slots(items, m, kind, i + 1)
            },
            _ => item_slots(items, m, kind, i + 1),
        }
    }
}

/// The images of the given kind in the messages from index `m` on, in
/// the order of the conversation.
pub open spec fn image_slots(messages: Seq<MessageModel>, kind: UrlKind, m: int) -> Seq<SlotModel>
    decreases messages.len() - m,
{
    if m < 0 || m >= messages.len() {
        Seq::empty()
    } else {
        (match messages[m].content {
            Some(ContentModel::Multi(items)) => item_slots(items, m, kind, 0),
            _ => Seq::empty(),
        }) + image_slots(messages, kind, m + 1)
    }
}

/// Finds the images of the given kind.
pub fn collect_image_urls(messages: &Vec<Message>, kind: UrlKind) -> (r: Vec<ImageSlot>)
    ensures
        r.deep_view() == image_slots(messages.deep_view(), kind, 0),
{
    let mut out: Vec<ImageSlot> = Vec::new();
    assert(out.deep_view() =~= Seq::<SlotModel>::empty());
    let mut m: usize = 0;
    while m < messages.len()
        invariant
            m <= messages.len(),
            out.deep_view() + image_slots(messages.deep_view(), kind, m as int) == image_slots(
                messages.deep_view(),
                kind,
                0,
            ),
        decreases messages.len() - m,
    {
        assert(messages.deep_view()[m as int] == messages@[m as int].deep_view());
        let ghost before = out.deep_view();
        let ghost rest = image_slots(messages.deep_view(), kind, m + 1);
        match &messages[m].content {
            Some(OpenAiContent::Multi(items)) => {
                let mut i: usize = 0;
                while i < items.len()
                    invariant
                        i <= items.len(),
                        out.deep_view() + item_slots(items.deep_view(), m as int, kind, i as int)
                            == before + item_slots(items.deep_view(), m as int, kind, 0),
                    decreases items.len() - i,
                {
                    assert(items.deep_view()[i as int] == items@[i as int].deep_view());
                    match &items[i] {
                        OpenAiContentItem::ImageUrl { image_url, .. } => {
                            if classify_url(image_url.url.as_str()) == kind {
                                let ghost o = out.deep_view();
                                let slot = ImageSlot {
                                    message: m,
                                    item: i,
                                    url: image_url.url.clone(),
                                };
                                out.push(slot);
                                assert(out.deep_view() =~= o.push(slot.deep_view()));
                                assert(o + (seq![slot.deep_view()] + item_slots(
                                    items.deep_view(),
                                    m as int,
                                    kind,
                                    i + 1,
                                )) =~= out.deep_view() + item_slots(
                                    items.deep_view(),
                                    m as int,
                                    kind,
                                    i + 1,
                                ));
                            }
                        },
                        _ => {},
                    }
                    i += 1;
                }
                assert(out.deep_view() + Seq::<SlotModel>::empty() =~= out.deep_view());
                assert(before + (item_slots(items.deep_view(), m as int, kind, 0) + rest)
                    =~= out.deep_view() + rest);
            },
            _ => {
                assert(before + (Seq::<SlotModel>::empty() + rest) =~= before + rest);
            },
        }
        m += 1;
    }
    assert(out.deep_view() + Seq::<SlotModel>::empty() =~= out.deep_view());
    out
}

/// The parts with the address of the image at index `i` replaced.
pub open spec fn items_with_url(items: Seq<ContentItemModel>, i: int, url: Seq<char>) -> Seq<
    ContentItemModel,
> {
    if 0 <= i < items.len() {
        match items[i] {
            ContentItemModel::ImageUrl { kind, .. } => items.update(
                i,
                ContentItemModel::ImageUrl { kind, url },
            ),
            _ => items,
        }
    } else {
        items
    }
}

/// The message with the address of its image at index `i` replaced.
pub open spec fn message_with_url(msg: MessageModel, i: int, url: Seq<char>) -> MessageModel {
    match msg.content {
        Some(ContentModel::Multi(items)) => MessageModel {
            content: Some(ContentModel::Multi(items_with_url(items, i, url))),
            ..msg
        },
        _ => msg,
    }
}

/// The conversation with the address of one image replaced. A place that
/// holds no image leaves it as it is.
pub open spec fn with_url(messages: Seq<MessageModel>, m: int, i: int, url: Seq<char>) -> Seq<
    MessageModel,
> {
    if 0 <= m < messages.len() {
        messages.update(m, message_with_url(messages[m], i, url))
    } else {
        messages
    }
}

/// The conversation with the addresses of the images `slots[k..]`
/// replaced by the URLs that are at hand for them.
pub open spec fn with_urls(
    messages: Seq<MessageModel>,
    slots: Seq<SlotModel>,
    urls: Seq<Option<Seq<char>>>,
    k: int,
) -> Seq<MessageModel>
    decreases slots.len() - k,
{
    if k < 0 || k >= slots.len() || k >= urls.len() {
        messages
    } else {
        with_urls(
            match urls[k] {
                Some(url) => with_url(messages, slots[k].message, slots[k].item, url),
                None => messages,
            },
            slots,
            urls,
            k + 1,
        )
    }
}

/// The images among `slots[k..]` for which no URL is at hand.
pub open spec fn missing_urls(slots: Seq<SlotModel>, urls: Seq<Option<Seq<char>>>, k: int) -> Seq<
    SlotModel,
>
    decreases slots.len() - k,
{
    if k < 0 || k >= slots.len() {
        Seq::empty()
    } else if k < urls.len() && urls[k] is Some {
        missing_urls(slots, urls, k + 1)
    } else {
        seq![slots[k]] + missing_urls(slots, urls, k + 1)
    }
}

fn items_with_url_exec(items: &Vec<OpenAiContentItem>, i: usize, url: &str) -> (r: Vec<
    OpenAiContentItem,
>)
    ensures
        r.deep_view() == items_with_url(items.deep_view(), i as int, url@),
{
    let mut out = copy_items(items);
    assert(out.deep_view().len() == items.deep_view().len());
    if i < items.len() {
        assert(items.deep_view()[i as int] == items@[i as int].deep_view());
        match &items[i] {
            OpenAiContentItem::ImageUrl { kind, .. } => {
                let ghost before = out.deep_view();
                let part = OpenAiContentItem::ImageUrl {
                    kind: copy_opt(kind),
                    image_url: ImageUrlContent { url: copy_str(url) },
                };
                out.set(i, part);
                assert(out.deep_view() =~= before.update(i as int, part.deep_view()));
            },
            _ => {},
        }
    }
    out
}

fn message_with_url_exec(msg: &Message, i: usize, url: &str) -> (r: Message)
    ensures
        r.deep_view() == message_with_url(msg.deep_view(), i as int, url@),
{
    match &msg.content {
        Some(OpenAiContent::Multi(items)) => {
            let mut r = msg.copy();
            r.content = Some(OpenAiContent::Multi(items_with_url_exec(items, i, url)));
            r
        },
        _ => msg.copy(),
    }
}

/// Replaces the address of the image at the given place.
pub fn replace_image_url(messages: &mut Vec<Message>, message: usize, item: usize, url: &str)
    ensures
        final(messages).deep_view() == with_url(
            old(messages).deep_view(),
            message as int,
            item as int,
            url@,
        ),
{
    if message < messages.len() {
        let ghost before = messages.deep_view();
        assert(before[message as int] == messages@[message as int].deep_view());
        let replaced = message_with_url_exec(&messages[message], item, url);
        messages.set(message, replaced);
        assert(messages.deep_view() =~= before.update(message as int, replaced.deep_view()));
    }
}

/// Replaces the addresses of the images by the URLs that are at hand for
/// them, `urls[k]` for `slots[k]`, and returns the images for which none
/// is.
pub fn replace_image_urls(messages: &mut Vec<Message>, slots: Vec<ImageSlot>, urls: &Vec<Option<String>>) -> (r:
    Vec<ImageSlot>)
    ensures
        final(messages).deep_view() == with_urls(
            old(messages).deep_view(),
            slots.deep_view(),
            urls.deep_view(),
            0,
        ),
        r.deep_view() == missing_urls(slots.deep_view(), urls.deep_view(), 0),
{
    let mut missing: Vec<ImageSlot> = Vec::new();
    assert(missing.deep_view() =~= Seq::<SlotModel>::empty());
    let ghost all = slots.deep_view();
    let ghost given = urls.deep_view();
    let mut k: usize = 0;
    while k < slots.len()
        invariant
            k <= slots.len(),
            all == slots.deep_view(),
            given == urls.deep_view(),
            with_urls(old(messages).deep_view(), all, given, 0) == with_urls(
                messages.deep_view(),
                all,
                given,
                k as int,
            ),
            missing.deep_view() + missing_urls(all, given, k as int) == missing_urls(all, given, 0),
        decreases slots.len() - k,
    {
        assert(all[k as int] == slots@[k as int].deep_view());
        let ghost m0 = missing.deep_view();
        let ghost rest = missing_urls(all, given, k + 1);
        let mut found = false;
        if k < urls.len() {
            assert(given[k as int] == urls@[k as int].deep_view());
            match &urls[k] {
                Some(url) => {
                    replace_image_url(messages, slots[k].message, slots[k].item, url.as_str());
                    found = true;
                },
                None => {},
            }
        }
        if !found {
            let slot = ImageSlot {
                message: slots[k].message,
                item: slots[k].item,
                url: slots[k].url.clone(),
            };
            missing.push(slot);
            assert(missing.deep_view() =~= m0.push(all[k as int]));
            assert(m0 + (seq![all[k as int]] + rest) =~= missing.deep_view() + rest);
        }
        k += 1;
    }
    assert(missing.deep_view() + Seq::<SlotModel>::empty() =~= missing.deep_view());
    missing
}

// ---------------------------------------------------------------------
// Uploads

/// The images that have to be uploaded: first the source URLs that the
/// cache does not know, then the data URIs that it does not know, each in
/// the order of the conversation.
pub open spec fn upload_plan(
    messages: Seq<MessageModel>,
    url_hits: Seq<Option<Seq<char>>>,
    hash_hits: Seq<Option<Seq<char>>>,
) -> Seq<SlotModel> {
    missing_urls(image_slots(messages, UrlKind::External, 0), url_hits, 0) + missing_urls(
        image_slots(messages, UrlKind::Data, 0),
        hash_hits,
        0,
    )
}

/// The conversation with the cached URLs in place: `url_hits[k]` for the
/// `k`-th source URL, `hash_hits[k]` for the `k`-th data URI.
pub open spec fn with_cached_urls(
    messages: Seq<MessageModel>,
    url_hits: Seq<Option<Seq<char>>>,
    hash_hits: Seq<Option<Seq<char>>>,
) -> Seq<MessageModel> {
    with_urls(
        with_urls(messages, image_slots(messages, UrlKind::External, 0), url_hits, 0),
        image_slots(messages, UrlKind::Data, 0),
        hash_hits,
        0,
    )
}

/// Puts the cached URLs in their places and returns the images that are
/// left for one batch upload. `url_hits[k]` is what the URL cache knows
/// of the `k`-th source URL, `hash_hits[k]` what the fingerprint cache
/// knows of the `k`-th data URI.
pub fn plan_uploads(
    messages: &mut Vec<Message>,
    url_hits: &Vec<Option<String>>,
    hash_hits: &Vec<Option<String>>,
) -> (r: Vec<ImageSlot>)
    ensures
        final(messages).deep_view() == with_cached_urls(
            old(messages).deep_view(),
            url_hits.deep_view(),
            hash_hits.deep_view(),
        ),
        r.deep_view() == upload_plan(
            old(messages).deep_view(),
            url_hits.deep_view(),
            hash_hits.deep_view(),
        ),
{
    let external = collect_image_urls(messages, UrlKind::External);
    let data = collect_image_urls(messages, UrlKind::Data);
    let mut plan = replace_image_urls(messages, external, url_hits);
    let mut rest = replace_image_urls(messages, data, hash_hits);
    let ghost first = plan.deep_view();
    let ghost second = rest.deep_view();
    plan.append(&mut rest);
    assert(plan.deep_view() =~= first + second);
    plan
}

/// What an upload asks the cache to remember: under the source URL or,
/// for a data URI, under its fingerprint.
#[derive(Debug)]
pub struct CacheWrite {
    pub by_hash: bool,
    pub key: String,
    pub url: String,
    pub size: usize,
}

pub struct CacheWriteModel {
    pub by_hash: bool,
    pub key: Seq<char>,
    pub url: Seq<char>,
    pub size: usize,
}

impl DeepView for CacheWrite {
    type V = CacheWriteModel;

    open spec fn deep_view(&self) -> CacheWriteModel {
        CacheWriteModel { by_hash: self.by_hash, key: self.key@, url: self.url@, size: self.size }
    }
}

/// The upstream answered with another number of files than were sent.
#[derive(Debug, Clone, Copy, PartialEq, Eq, Structural)]
pub struct UploadError {
    pub expected: usize,
    pub received: usize,
}

/// What the cache is to remember of an uploaded image: a data URI goes
/// by its fingerprint and the estimated size of its payload, a source URL
/// by itself and the fixed estimate.
pub open spec fn cache_write(slot: SlotModel, answer: Seq<char>) -> CacheWriteModel {
    if url_kind(slot.url) == UrlKind::Data {
        CacheWriteModel {
            by_hash: true,
            key: crate::media::fingerprint(slot.url),
            url: answer,
            size: crate::cache::estimated_size(slot.url) as usize,
        }
    } else {
        CacheWriteModel {
            by_hash: false,
            key: slot.url,
            url: answer,
            size: REMOTE_FILE_SIZE_ESTIMATE,
        }
    }
}

pub open spec fn cache_writes(plan: Seq<SlotModel>, answers: Seq<Seq<char>>) -> Seq<CacheWriteModel> {
    Seq::new(plan.len(), |i: int| cache_write(plan[i], answers[i]))
}

/// Each answer as a URL that is at hand.
pub open spec fn all_at_hand(answers: Seq<Seq<char>>) -> Seq<Option<Seq<char>>> {
    Seq::new(answers.len(), |i: int| Some(answers[i]))
}

/// Puts the answers of the batch upload in the places of the planned
/// images, `answers[k]` for `plan[k]`, and returns what the cache is to
/// remember. Where the answers are not as many as the planned images,
/// the conversation stays as it is and the upload counts as failed.
pub fn apply_uploads(messages: &mut Vec<Message>, plan: Vec<ImageSlot>, answers: &Vec<String>) -> (r:
    Result<Vec<CacheWrite>, UploadError>)
    ensures
        answers.len() != plan.len() ==> r == Err::<Vec<CacheWrite>, UploadError>(
            UploadError { expected: plan.len(), received: answers.len() },
        ) && final(messages).deep_view() == old(messages).deep_view(),
        answers.len() == plan.len() ==> r is Ok && r->Ok_0.deep_view() == cache_writes(
            plan.deep_view(),
            answers.deep_view(),
        ) && final(messages).deep_view() == with_urls(
            old(messages).deep_view(),
            plan.deep_view(),
            all_at_hand(answers.deep_view()),
            0,
        ),
{
    if answers.len() != plan.len() {
        return Err(UploadError { expected: plan.len(), received: answers.len() });
    }
    let mut writes: Vec<CacheWrite> = Vec::new();
    let mut urls: Vec<Option<String>> = Vec::new();
    let mut i: usize = 0;
    while i < plan.len()
        invariant
            i <= plan.len(),
            answers.len() == plan.len(),
            writes.len() == i,
            urls.len() == i,
            forall|k: int|
                0 <= k < i ==> (#[trigger] writes@[k]).deep_view() == cache_write(
                    plan@[k].deep_view(),
                    answers@[k]@,
                ),
            forall|k: int| 0 <= k < i ==> (#[trigger] urls@[k]).deep_view() == Some(answers@[k]@),
        decreases plan.len() - i,
    {
        let write = match classify_url(plan[i].url.as_str()) {
            UrlKind::Data => CacheWrite {
                by_hash: true,
                key: crate::media::hash_base64_content(plan[i].url.as_str()),
                url: answers[i].clone(),
                size: crate::cache::estimate_base64_size(plan[i].url.as_str()),
            },
            _ => CacheWrite {
                by_hash: false,
                key: plan[i].url.clone(),
                url: answers[i].clone(),
                size: REMOTE_FILE_SIZE_ESTIMATE,
            },
        };
        writes.push(write);
        urls.push(Some(answers[i].clone()));
        i += 1;
    }
    assert(writes.deep_view() =~= cache_writes(plan.deep_view(), answers.deep_view()));
    assert(urls.deep_view() =~= all_at_hand(answers.deep_view()));
    let _ = replace_image_urls(messages, plan, &urls);
    Ok(writes)
}

// ---------------------------------------------------------------------
// Images of the last reply

/// Index of the last of the first `n` messages that has the role.
pub open spec fn last_with_role(messages: Seq<MessageModel>, role: Seq<char>, n: int) -> Option<int>
    decreases n,
{
    if n <= 0 || n > messages.len() {
        None
    } else if messages[n - 1].role == role {
        Some(n - 1)
    } else {
        last_with_role(messages, role, n - 1)
    }
}

/// An image part for a URL.
pub open spec fn image_part(url: Seq<char>) -> ContentItemModel {
    ContentItemModel::ImageUrl { kind: Some("image_url"@), url }
}

pub open spec fn image_parts(urls: Seq<Seq<char>>) -> Seq<ContentItemModel> {
    Seq::new(urls.len(), |i: int| image_part(urls[i]))
}

/// A content with the images added: a text becomes a text part before
/// them, parts stay before them, no content becomes the images alone.
pub open spec fn with_images(content: Option<ContentModel>, urls: Seq<Seq<char>>) -> ContentModel {
    match content {
        Some(ContentModel::Text(t)) => ContentModel::Multi(
            seq![ContentItemModel::Text { kind: Some("text"@), text: t }] + image_parts(urls),
        ),
        Some(ContentModel::Multi(items)) => ContentModel::Multi(items + image_parts(urls)),
        None => ContentModel::Multi(image_parts(urls)),
    }
}

/// The conversation with the CDN URLs that its last assistant message
/// names added as images to its last user message. A conversation of
/// fewer than two messages, or without either, stays as it is.
pub open spec fn with_back_references(messages: Seq<MessageModel>) -> Seq<MessageModel> {
    if messages.len() >= 2 {
        match (
            last_with_role(messages, "assistant"@, messages.len() as int),
            last_with_role(messages, "user"@, messages.len() as int),
        ) {
            (Some(b), Some(u)) => {
                let urls = message_cdn_urls(messages[b]);
                if urls.len() > 0 {
                    messages.update(
                        u,
                        MessageModel {
                            content: Some(with_images(messages[u].content, urls)),
                            ..messages[u]
                        },
                    )
                } else {
                    messages
                }
            },
            _ => messages,
        }
    } else {
        messages
    }
}

fn find_last_with_role(messages: &Vec<Message>, role: &str) -> (r: Option<usize>)
    ensures
        crate::text::index_view(r) == last_with_role(
            messages.deep_view(),
            role@,
            messages.len() as int,
        ),
        r is Some ==> r->0 < messages.len(),
{
    let mut n: usize = messages.len();
    while n > 0
        invariant
            n <= messages.len(),
            last_with_role(messages.deep_view(), role@, messages.len() as int) == last_with_role(
                messages.deep_view(),
                role@,
                n as int,
            ),
        decreases n,
    {
        assert(messages.deep_view()[n - 1] == messages@[n - 1].deep_view());
        if str_eq(messages[n - 1].role.as_str(), role) {
            return Some(n - 1);
        }
        n -= 1;
    }
    None
}

fn push_image_parts(items: &mut Vec<OpenAiContentItem>, urls: &Vec<String>)
    ensures
        final(items).deep_view() == old(items).deep_view() + image_parts(urls.deep_view()),
{
    let ghost start = items.deep_view();
    let mut i: usize = 0;
    assert(items.deep_view() =~= start + image_parts(urls.deep_view()).take(0));
    while i < urls.len()
        invariant
            i <= urls.len(),
            items.deep_view() == start + image_parts(urls.deep_view()).take(i as int),
        decreases urls.len() - i,
    {
        let ghost before = items.deep_view();
        let part = OpenAiContentItem::ImageUrl {
            kind: Some(copy_str("image_url")),
            image_url: ImageUrlContent { url: urls[i].clone() },
        };
        items.push(part);
        assert(items.deep_view() =~= before.push(part.deep_view()));
        assert(items.deep_view() =~= start + image_parts(urls.deep_view()).take(i + 1));
        i += 1;
    }
    assert(image_parts(urls.deep_view()).take(urls.len() as int) =~= image_parts(
        urls.deep_view(),
    ));
}

/// Hands the images of the last reply back to the model: the CDN URLs
/// that the last assistant message names become images of the last user
/// message.
pub fn attach_assistant_images(messages: &mut Vec<Message>)
    ensures
        final(messages).deep_view() == with_back_references(old(messages).deep_view()),
{
    if messages.len() < 2 {
        return ;
    }
    let bot = find_last_with_role(messages, "assistant");
    let user = find_last_with_role(messages, "user");
    match (bot, user) {
        (Some(b), Some(u)) => {
            let ghost before = messages.deep_view();
            assert(before[b as int] == messages@[b as int].deep_view());
            assert(before[u as int] == messages@[u as int].deep_view());
            let urls = extract_poe_cdn_urls_from_message(&messages[b]);
            if urls.len() > 0 {
                let mut items: Vec<OpenAiContentItem> = match &messages[u].content {
                    Some(OpenAiContent::Text(t)) => {
                        let mut v: Vec<OpenAiContentItem> = Vec::new();
                        let part = OpenAiContentItem::Text {
                            kind: Some(copy_str("text")),
                            text: t.clone(),
                        };
                        v.push(part);
                        assert(v.deep_view() =~= seq![part.deep_view()]);
                        v
                    },
                    Some(OpenAiContent::Multi(old_items)) => copy_items(old_items),
                    None => {
                        let v: Vec<OpenAiContentItem> = Vec::new();
                        assert(v.deep_view() =~= Seq::<ContentItemModel>::empty());
                        v
                    },
                };
                let ghost head = items.deep_view();
                push_image_parts(&mut items, &urls);
                assert(Seq::<ContentItemModel>::empty() + image_parts(urls.deep_view())
                    =~= image_parts(urls.deep_view()));
                let mut replaced = messages[u].copy();
                replaced.content = Some(OpenAiContent::Multi(items));
                messages.set(u, replaced);
                assert(messages.deep_view() =~= before.update(u as int, replaced.deep_view()));
            }
        },
        _ => {},
    }
}

} // verus!
