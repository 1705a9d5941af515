use poe2openai::attachments::{
    apply_uploads, attach_assistant_images, classify_url, collect_image_urls, plan_uploads,
    replace_image_url, replace_image_urls, UploadError, UrlKind, REMOTE_FILE_SIZE_ESTIMATE,
};
use poe2openai::chat::{ImageUrlContent, Message, OpenAiContent, OpenAiContentItem};
use poe2openai::media::{
    extract_poe_cdn_urls_from_message, extract_urls_from_markdown, handle_data_url,
    hash_base64_content, is_poe_cdn_url, mime_type_to_extension, sample_bytes, to_hex,
    DataUrlError,
};
use sha2::Digest;

fn text_message(role: &str, content: &str) -> Message {
    Message {
        role: role.to_string(),
        name: None,
        content: Some(OpenAiContent::Text(content.to_string())),
        tool_calls: None,
        tool_call_id: None,
    }
}

fn image(url: &str) -> OpenAiContentItem {
    OpenAiContentItem::ImageUrl { kind: Some("image_url".to_string()), image_url: ImageUrlContent { url: url.to_string() } }
}

fn part(text: &str) -> OpenAiContentItem {
    OpenAiContentItem::Text { kind: Some("text".to_string()), text: text.to_string() }
}

fn parts_message(role: &str, items: Vec<OpenAiContentItem>) -> Message {
    Message {
        role: role.to_string(),
        name: None,
        content: Some(OpenAiContent::Multi(items)),
        tool_calls: None,
        tool_call_id: None,
    }
}

fn image_urls(message: &Message) -> Vec<String> {
    match &message.content {
        Some(OpenAiContent::Multi(items)) => items
            .iter()
            .filter_map(|i| i.as_image_url().map(|u| u.url.clone()))
            .collect(),
        _ => vec![],
    }
}

#[test]
fn cdn_urls_are_recognised_by_their_prefix() {
    assert!(is_poe_cdn_url("https://pfst.cf2.poecdn.net/base/image/abc"));
    assert!(!is_poe_cdn_url("http://pfst.cf2.poecdn.net/base/image/abc"));
    assert!(!is_poe_cdn_url("https://example.com/https://pfst.cf2.poecdn.net"));
    assert_eq!(classify_url("data:image/png;base64,AAAA"), UrlKind::Data);
    assert_eq!(classify_url("https://pfst.cf2.poecdn.net/x"), UrlKind::Cdn);
    assert_eq!(classify_url("https://example.com/x.png"), UrlKind::External);
    assert_eq!(REMOTE_FILE_SIZE_ESTIMATE, 1024 * 1024);
}

#[test]
fn cdn_urls_are_found_in_markdown_and_as_words() {
    let mut urls = vec!["kept".to_string()];
    extract_urls_from_markdown(
        "see ![pic](https://pfst.cf2.poecdn.net/a.png) and ![x](https://other.example/b.png)\nalso https://pfst.cf2.poecdn.net/c.png end",
        &mut urls,
    );
    assert_eq!(
        urls,
        vec![
            "kept",
            "https://pfst.cf2.poecdn.net/a.png",
            "https://pfst.cf2.poecdn.net/c.png"
        ]
    );
    let mut none = vec![];
    extract_urls_from_markdown("nothing to see", &mut none);
    assert!(none.is_empty());
}

#[test]
fn cdn_urls_of_a_message() {
    let message = parts_message(
        "assistant",
        vec![
            image("https://pfst.cf2.poecdn.net/1"),
            image("https://example.com/2"),
            part("here https://pfst.cf2.poecdn.net/3"),
        ],
    );
    assert_eq!(
        extract_poe_cdn_urls_from_message(&message),
        vec!["https://pfst.cf2.poecdn.net/1", "https://pfst.cf2.poecdn.net/3"]
    );
    let plain = text_message("assistant", "![a](https://pfst.cf2.poecdn.net/z)");
    assert_eq!(extract_poe_cdn_urls_from_message(&plain), vec!["https://pfst.cf2.poecdn.net/z"]);
    let empty = Message { role: "assistant".into(), name: None, content: None, tool_calls: None, tool_call_id: None };
    assert!(extract_poe_cdn_urls_from_message(&empty).is_empty());
}

#[test]
fn fingerprint_is_the_sha256_of_the_payload() {
    let expected = "ba7816bf8f01cfea414140de5dae2223b00361a396177a9cb410ff61f20015ad";
    assert_eq!(hash_base64_content("data:image/png;base64,abc"), expected);
    assert_eq!(hash_base64_content("abc"), expected);
    assert_ne!(hash_base64_content("data:image/png;base64,abd"), expected);
    assert_eq!(hash_base64_content("x;base64,abc;base64,ignored"), expected);
}

#[test]
fn fingerprint_samples_head_and_tail_of_long_payloads() {
    let payload: String = (0..3000).map(|i| char::from(b'A' + (i % 26) as u8)).collect();
    let mut sample = payload.as_bytes()[..1024].to_vec();
    sample.extend_from_slice(&payload.as_bytes()[3000 - 1024..]);
    let expected: String =
        sha2::Sha256::digest(&sample).iter().map(|b| format!("{:02x}", b)).collect();
    assert_eq!(hash_base64_content(&format!("data:a/b;base64,{}", payload)), expected);
    let mut changed = payload.clone().into_bytes();
    changed[1500] = b'!';
    let changed = String::from_utf8(changed).expect("ascii");
    assert_eq!(hash_base64_content(&format!("data:a/b;base64,{}", changed)), expected);
    let middle: String = payload.chars().take(2000).collect();
    let whole: String =
        sha2::Sha256::digest(middle.as_bytes()).iter().map(|b| format!("{:02x}", b)).collect();
    assert_eq!(hash_base64_content(&middle), whole);
    assert_eq!(sample_bytes(&payload.clone().into_bytes()), sample);
    assert_eq!(sample_bytes(&vec![1, 2, 3]), vec![1, 2, 3]);
}

#[test]
fn bytes_in_hexadecimal() {
    assert_eq!(to_hex(&vec![0x00, 0x0f, 0xa5, 0xff]), "000fa5ff");
    assert_eq!(to_hex(&vec![]), "");
}

#[test]
fn data_url_is_read() {
    let file = handle_data_url("data:image/png;base64,aGVsbG8=").expect("file");
    assert_eq!(file.mime_type, "image/png");
    assert_eq!(file.extension, "png");
    assert_eq!(file.bytes, b"hello".to_vec());
    let unknown = handle_data_url("data:application/x-thing;base64,").expect("file");
    assert_eq!(unknown.extension, "bin");
    assert!(unknown.bytes.is_empty());
}

#[test]
fn data_url_errors() {
    assert_eq!(handle_data_url("https://example.com/a.png").err(), Some(DataUrlError::NotDataUrl));
    assert_eq!(handle_data_url("data:image/png,plain").err(), Some(DataUrlError::MissingSeparator));
    assert_eq!(
        handle_data_url("data:image/png;base64,AAAA;base64,BBBB").err(),
        Some(DataUrlError::MissingSeparator)
    );
    assert_eq!(
        handle_data_url("data:image/png;base64,not base64!").err(),
        Some(DataUrlError::InvalidBase64)
    );
}

#[test]
fn extensions_of_media_types() {
    let cases = [
        ("image/jpeg", "jpeg"), ("image/jpg", "jpeg"), ("image/png", "png"), ("image/gif", "gif"),
        ("image/webp", "webp"), ("image/svg+xml", "svg"), ("image/bmp", "bmp"),
        ("image/tiff", "tiff"), ("application/pdf", "pdf"), ("text/plain", "txt"),
        ("text/csv", "csv"), ("application/json", "json"), ("application/xml", "xml"),
        ("text/xml", "xml"), ("application/zip", "zip"), ("application/x-tar", "tar"),
        ("application/x-gzip", "gz"), ("audio/mpeg", "mp3"), ("audio/wav", "wav"),
        ("audio/ogg", "ogg"), ("video/mp4", "mp4"), ("video/mpeg", "mpeg"),
        ("video/quicktime", "mov"), ("application/octet-stream", "bin"), ("", "bin"),
    ];
    for (mime, extension) in cases {
        assert_eq!(mime_type_to_extension(mime), extension);
    }
}

#[test]
fn images_are_collected_by_kind() {
    let messages = vec![
        text_message("system", "data:not-a-part"),
        parts_message(
            "user",
            vec![
                part("look"),
                image("https://example.com/a.png"),
                image("data:image/png;base64,AAAA"),
                image("https://pfst.cf2.poecdn.net/b"),
            ],
        ),
        parts_message("user", vec![image("http://example.com/c.png")]),
    ];
    let external = collect_image_urls(&messages, UrlKind::External);
    let found: Vec<(usize, usize, &str)> =
        external.iter().map(|s| (s.message, s.item, s.url.as_str())).collect();
    assert_eq!(found, vec![(1, 1, "https://example.com/a.png"), (2, 0, "http://example.com/c.png")]);
    let data = collect_image_urls(&messages, UrlKind::Data);
    assert_eq!(data.len(), 1);
    assert_eq!((data[0].message, data[0].item), (1, 2));
    assert_eq!(collect_image_urls(&messages, UrlKind::Cdn).len(), 1);
}

#[test]
fn image_addresses_are_replaced() {
    let mut messages = vec![
        parts_message("user", vec![part("look"), image("https://example.com/a.png")]),
        parts_message("user", vec![image("https://example.com/b.png"), image("https://example.com/c.png")]),
    ];
    replace_image_url(&mut messages, 0, 1, "https://pfst.cf2.poecdn.net/a");
    replace_image_url(&mut messages, 0, 0, "ignored: a text part");
    replace_image_url(&mut messages, 5, 0, "ignored: no such message");
    assert_eq!(image_urls(&messages[0]), vec!["https://pfst.cf2.poecdn.net/a"]);
    assert_eq!(messages[0].content.as_ref().map(|c| match c {
        OpenAiContent::Multi(items) => items[0].as_text().map(|t| t.to_string()),
        _ => None,
    }), Some(Some("look".to_string())));
    let slots = collect_image_urls(&messages, UrlKind::External);
    assert_eq!(slots.len(), 2);
    let missing = replace_image_urls(
        &mut messages,
        slots,
        &vec![None, Some("https://pfst.cf2.poecdn.net/c".to_string())],
    );
    assert_eq!(missing.len(), 1);
    assert_eq!(missing[0].url, "https://example.com/b.png");
    assert_eq!(
        image_urls(&messages[1]),
        vec!["https://example.com/b.png", "https://pfst.cf2.poecdn.net/c"]
    );
    let slots = collect_image_urls(&messages, UrlKind::External);
    let missing = replace_image_urls(&mut messages, slots, &vec![]);
    assert_eq!(missing.len(), 1);
}

#[test]
fn images_of_the_last_reply_go_to_the_last_user_message() {
    let mut messages = vec![
        text_message("user", "draw"),
        text_message("assistant", "![img](https://pfst.cf2.poecdn.net/one.png)"),
        text_message("user", "again"),
    ];
    attach_assistant_images(&mut messages);
    match messages[2].content.as_ref().expect("content") {
        OpenAiContent::Multi(items) => {
            assert_eq!(items.len(), 2);
            assert_eq!(items[0].content_type(), Some("text"));
            assert_eq!(items[0].as_text(), Some("again"));
            assert_eq!(items[1].content_type(), Some("image_url"));
        }
        other => panic!("unexpected: {:?}", other),
    }
    assert_eq!(image_urls(&messages[2]), vec!["https://pfst.cf2.poecdn.net/one.png"]);
    assert!(matches!(messages[0].content, Some(OpenAiContent::Text(_))));
}

#[test]
fn images_join_existing_parts_or_make_the_content() {
    let mut messages = vec![
        parts_message("assistant", vec![image("https://pfst.cf2.poecdn.net/a")]),
        parts_message("user", vec![part("t")]),
    ];
    attach_assistant_images(&mut messages);
    assert_eq!(image_urls(&messages[1]), vec!["https://pfst.cf2.poecdn.net/a"]);
    let mut bare = vec![
        parts_message("assistant", vec![image("https://pfst.cf2.poecdn.net/a")]),
        Message { role: "user".into(), name: None, content: None, tool_calls: None, tool_call_id: None },
    ];
    attach_assistant_images(&mut bare);
    assert_eq!(image_urls(&bare[1]), vec!["https://pfst.cf2.poecdn.net/a"]);
}

#[test]
fn nothing_is_attached_without_cdn_urls_or_partners() {
    let mut no_urls = vec![text_message("assistant", "no images"), text_message("user", "q")];
    attach_assistant_images(&mut no_urls);
    assert!(matches!(no_urls[1].content, Some(OpenAiContent::Text(_))));
    let mut single = vec![text_message("user", "https://pfst.cf2.poecdn.net/a")];
    attach_assistant_images(&mut single);
    assert!(matches!(single[0].content, Some(OpenAiContent::Text(_))));
    let mut no_user = vec![
        text_message("assistant", "https://pfst.cf2.poecdn.net/a"),
        text_message("system", "s"),
    ];
    attach_assistant_images(&mut no_user);
    assert!(matches!(no_user[1].content, Some(OpenAiContent::Text(_))));
}

#[test]
fn uploads_are_planned_and_applied_in_one_batch() {
    let mut messages = vec![
        parts_message(
            "user",
            vec![
                image("data:image/png;base64,AAAA"),
                image("https://example.com/a.png"),
                image("https://pfst.cf2.poecdn.net/kept"),
            ],
        ),
        parts_message(
            "user",
            vec![image("https://example.com/b.png"), image("data:image/png;base64,BBBBB")],
        ),
    ];
    let url_hits = vec![None, Some("https://pfst.cf2.poecdn.net/b".to_string())];
    let hash_hits = vec![Some("https://pfst.cf2.poecdn.net/d1".to_string()), None];
    let plan = plan_uploads(&mut messages, &url_hits, &hash_hits);
    let planned: Vec<(usize, usize, &str)> =
        plan.iter().map(|s| (s.message, s.item, s.url.as_str())).collect();
    assert_eq!(
        planned,
        vec![(0, 1, "https://example.com/a.png"), (1, 1, "data:image/png;base64,BBBBB")]
    );
    assert_eq!(
        image_urls(&messages[0]),
        vec![
            "https://pfst.cf2.poecdn.net/d1",
            "https://example.com/a.png",
            "https://pfst.cf2.poecdn.net/kept"
        ]
    );
    assert_eq!(
        image_urls(&messages[1]),
        vec!["https://pfst.cf2.poecdn.net/b", "data:image/png;base64,BBBBB"]
    );
    let answers =
        vec!["https://pfst.cf2.poecdn.net/a".to_string(), "https://pfst.cf2.poecdn.net/d2".to_string()];
    let writes = apply_uploads(&mut messages, plan, &answers).expect("writes");
    assert_eq!(writes.len(), 2);
    assert!(!writes[0].by_hash);
    assert_eq!(writes[0].key, "https://example.com/a.png");
    assert_eq!(writes[0].url, "https://pfst.cf2.poecdn.net/a");
    assert_eq!(writes[0].size, 1024 * 1024);
    assert!(writes[1].by_hash);
    assert_eq!(writes[1].key, hash_base64_content("data:image/png;base64,BBBBB"));
    assert_eq!(writes[1].url, "https://pfst.cf2.poecdn.net/d2");
    assert_eq!(writes[1].size, 4);
    assert_eq!(image_urls(&messages[0])[1], "https://pfst.cf2.poecdn.net/a");
    assert_eq!(image_urls(&messages[1])[1], "https://pfst.cf2.poecdn.net/d2");
}

#[test]
fn a_short_answer_fails_the_upload_and_changes_nothing() {
    let mut messages =
        vec![parts_message("user", vec![image("https://example.com/a.png"), image("http://x/b")])];
    let plan = plan_uploads(&mut messages, &vec![], &vec![]);
    assert_eq!(plan.len(), 2);
    let failed = apply_uploads(&mut messages, plan, &vec!["https://pfst.cf2.poecdn.net/a".to_string()]);
    assert_eq!(failed.err(), Some(UploadError { expected: 2, received: 1 }));
    assert_eq!(image_urls(&messages[0]), vec!["https://example.com/a.png", "http://x/b"]);
}
