//! Attachments by themselves: which URLs need no upload, which CDN URLs a
//! text names, the fingerprint of a data URI, and what a data URI holds.

use crate::chat::{ContentItemModel, ContentModel, Message, MessageModel, OpenAiContent, OpenAiContentItem};
use crate::split::{is_space, is_whitespace, split, vec_split};
use crate::text::{
    chars_of, copy_str, starts_with, str_eq, str_starts_with, string_of, subvec,
    vec_starts_with, vec_views,
};
use sha2::Digest;
use base64::Engine;
use vstd::prelude::*;
use vstd::utf8::encode_utf8;

verus! {

// ---------------------------------------------------------------------
// Outside functions

/// The SHA-256 digest of a byte sequence.
pub uninterp spec fn sha256_digest(bytes: Seq<u8>) -> Seq<u8>;

/// `Sha256::digest` of `sha2`. The digest depends on the bytes alone; the
/// contract gives it the name `sha256_digest`, and states its length of
/// 32 bytes.
#[verifier::external_body]
fn sha256(bytes: &[u8]) -> (r: Vec<u8>)
    ensures
        r@ == sha256_digest(bytes@),
        r.len() == 32,
{
    sha2::Sha256::digest(bytes).to_vec()
}

/// What the standard base64 alphabet with padding decodes a text to;
/// nothing where the text is no such encoding.
pub uninterp spec fn base64_decoded(text: Seq<char>) -> Option<Seq<u8>>;

/// `Engine::decode` of `base64` on its `STANDARD` engine. The result
/// depends on the text alone; the contract gives it the name
/// `base64_decoded`.
#[verifier::external_body]
fn base64_decode(text: &str) -> (r: Option<Vec<u8>>)
    ensures
        crate::cache::bytes_view(r) == base64_decoded(text@),
{
    base64::engine::general_purpose::STANDARD.decode(text).ok()
}

/// For each match of the pattern in the text, left to right, what its
/// first group matched, if it took part; nothing where the pattern is no
/// regular expression.
pub uninterp spec fn regex_first_groups(pattern: Seq<char>, text: Seq<char>) -> Option<
    Seq<Option<Seq<char>>>,
>;

/// `Regex::new` and `Regex::captures_iter` of `regex`, with
/// `Captures::get(1)` on each match. The result depends on the two texts
/// alone; the contract gives it the name `regex_first_groups`.
#[verifier::external_body]
fn regex_captures(pattern: &str, text: &str) -> (r: Option<Vec<Option<String>>>)
    ensures
        r.deep_view() == regex_first_groups(pattern@, text@),
{
    match regex::Regex::new(pattern) {
        Ok(re) => Some(
            re.captures_iter(text).map(|found| found.get(1).map(|m| m.as_str().to_string())).collect(),
        ),
        Err(_) => None,
    }
}

// ---------------------------------------------------------------------
// CDN URLs

/// The prefix of the URLs that the upstream's CDN serves.
pub open spec fn cdn_prefix() -> Seq<char> {
    "https://pfst.cf2.poecdn.net"@
}

/// Whether the upstream's CDN serves the URL, so that it needs no upload.
pub fn is_poe_cdn_url(url: &str) -> (r: bool)
    ensures
        r == starts_with(url@, cdn_prefix()),
{
    str_starts_with(url, "https://pfst.cf2.poecdn.net")
}

/// The words of `s[i..]`: what stands between white space.
pub open spec fn words_from(s: Seq<char>, i: int) -> Seq<Seq<char>>
    decreases s.len() - i,
{
    let a = crate::split::skip_space(s, i);
    if i < 0 || a >= s.len() || a < i {
        Seq::empty()
    } else {
        let b = word_end(s, a);
        if a < b <= s.len() {
            seq![s.subrange(a, b)] + words_from(s, b)
        } else {
            Seq::empty()
        }
    }
}

/// First index at or after `i` that holds white space, or the length.
pub open spec fn word_end(s: Seq<char>, i: int) -> int
    decreases s.len() - i,
{
    if i < 0 || i >= s.len() {
        s.len() as int
    } else if is_space(s[i]) {
        i
    } else {
        word_end(s, i + 1)
    }
}

/// The texts among `all[i..]` that are CDN URLs.
pub open spec fn cdn_only(all: Seq<Seq<char>>, i: int) -> Seq<Seq<char>>
    decreases all.len() - i,
{
    if i < 0 || i >= all.len() {
        Seq::empty()
    } else if starts_with(all[i], cdn_prefix()) {
        seq![all[i]] + cdn_only(all, i + 1)
    } else {
        cdn_only(all, i + 1)
    }
}

/// What the groups from index `i` on matched.
pub open spec fn present(groups: Seq<Option<Seq<char>>>, i: int) -> Seq<Seq<char>>
    decreases groups.len() - i,
{
    if i < 0 || i >= groups.len() {
        Seq::empty()
    } else {
        match groups[i] {
            Some(g) => seq![g] + present(groups, i + 1),
            None => present(groups, i + 1),
        }
    }
}

/// The pattern of a Markdown image whose address is an HTTP URL.
pub open spec fn markdown_image_pattern() -> Seq<char> {
    "!\\[.*?\\]\\((https?://[^\\s)]+)\\)"@
}

/// The CDN URLs that a text names, given the addresses of its Markdown
/// images: first those addresses, then the words of the text, in each
/// case only what the CDN serves.
pub open spec fn cdn_urls_in(text: Seq<char>, images: Option<Seq<Option<Seq<char>>>>) -> Seq<
    Seq<char>,
> {
    (match images {
        Some(groups) => cdn_only(present(groups, 0), 0),
        None => Seq::empty(),
    }) + cdn_only(words_from(text, 0), 0)
}

/// The CDN URLs that a text names.
pub open spec fn text_cdn_urls(text: Seq<char>) -> Seq<Seq<char>> {
    cdn_urls_in(text, regex_first_groups(markdown_image_pattern(), text))
}

fn words(s: &Vec<char>) -> (r: Vec<Vec<char>>)
    ensures
        vec_views(r@) == words_from(s@, 0),
{
    let mut out: Vec<Vec<char>> = Vec::new();
    assert(vec_views(out@) =~= Seq::<Seq<char>>::empty());
    let mut i: usize = 0;
    loop
        invariant
            i <= s.len(),
            words_from(s@, 0) == vec_views(out@) + words_from(s@, i as int),
        decreases s.len() - i,
    {
        let a = crate::split::vec_skip_space(s, i);
        if a >= s.len() {
            assert(vec_views(out@) + Seq::<Seq<char>>::empty() =~= vec_views(out@));
            return out;
        }
        let mut b: usize = a;
        while b < s.len() && !is_whitespace(s[b])
            invariant
                a <= b <= s.len(),
                word_end(s@, a as int) == word_end(s@, b as int),
            decreases s.len() - b,
        {
            b += 1;
        }
        proof {
            crate::split::lemma_skip_space(s@, i as int);
        }
        assert(b > a);
        let ghost before = vec_views(out@);
        let w = subvec(s, a, b);
        out.push(w);
        assert(vec_views(out@) =~= before.push(w@));
        assert(before + (seq![w@] + words_from(s@, b as int)) =~= vec_views(out@) + words_from(
            s@,
            b as int,
        ));
        i = b;
    }
}

/// Appends to `urls` the CDN URLs that `text` names, given the addresses
/// of its Markdown images.
pub fn push_cdn_urls(text: &str, images: &Option<Vec<Option<String>>>, urls: &mut Vec<String>)
    ensures
        final(urls).deep_view() == old(urls).deep_view() + cdn_urls_in(text@, images.deep_view()),
{
    let ghost start = urls.deep_view();
    let prefix = chars_of("https://pfst.cf2.poecdn.net");
    match images {
        Some(groups) => {
            let ghost g = groups.deep_view();
            let mut shown: Vec<Vec<char>> = Vec::new();
            assert(vec_views(shown@) =~= Seq::<Seq<char>>::empty());
            let mut i: usize = 0;
            while i < groups.len()
                invariant
                    i <= groups.len(),
                    g == groups.deep_view(),
                    present(g, 0) == vec_views(shown@) + present(g, i as int),
                decreases groups.len() - i,
            {
                assert(g[i as int] == groups@[i as int].deep_view());
                match &groups[i] {
                    Some(found) => {
                        let ghost before = vec_views(shown@);
                        let w = chars_of(found.as_str());
                        shown.push(w);
                        assert(vec_views(shown@) =~= before.push(w@));
                        assert(before + (seq![w@] + present(g, i + 1)) =~= vec_views(shown@)
                            + present(g, i + 1));
                    },
                    None => {},
                }
                i += 1;
            }
            assert(vec_views(shown@) + Seq::<Seq<char>>::empty() =~= vec_views(shown@));
            push_cdn_only(&shown, &prefix, urls);
        },
        None => {
            assert(urls.deep_view() =~= start + Seq::<Seq<char>>::empty());
        },
    }
    let ghost mid = urls.deep_view();
    let w = words(&chars_of(text));
    push_cdn_only(&w, &prefix, urls);
    assert(urls.deep_view() =~= start + cdn_urls_in(text@, images.deep_view()));
}

fn push_cdn_only(all: &Vec<Vec<char>>, prefix: &Vec<char>, urls: &mut Vec<String>)
    requires
        prefix@ == cdn_prefix(),
    ensures
        final(urls).deep_view() == old(urls).deep_view() + cdn_only(vec_views(all@), 0),
{
    let ghost start = urls.deep_view();
    let mut i: usize = 0;
    assert(urls.deep_view() =~= start + Seq::<Seq<char>>::empty());
    while i < all.len()
        invariant
            i <= all.len(),
            prefix@ == cdn_prefix(),
            urls.deep_view() + cdn_only(vec_views(all@), i as int) == start + cdn_only(
                vec_views(all@),
                0,
            ),
        decreases all.len() - i,
    {
        assert(vec_views(all@)[i as int] == all@[i as int]@);
        if vec_starts_with(&all[i], prefix) {
            let ghost before = urls.deep_view();
            urls.push(string_of(&all[i]));
            assert(urls.deep_view() =~= before.push(all@[i as int]@));
            assert(before + (seq![all@[i as int]@] + cdn_only(vec_views(all@), i + 1))
                =~= urls.deep_view() + cdn_only(vec_views(all@), i + 1));
        }
        i += 1;
    }
    assert(urls.deep_view() + Seq::<Seq<char>>::empty() =~= urls.deep_view());
}

/// Appends to `urls` the CDN URLs that a Markdown text names.
pub fn extract_urls_from_markdown(text: &str, urls: &mut Vec<String>)
    ensures
        final(urls).deep_view() == old(urls).deep_view() + text_cdn_urls(text@),
{
    let images = regex_captures("!\\[.*?\\]\\((https?://[^\\s)]+)\\)", text);
    push_cdn_urls(text, &images, urls);
}

/// The CDN URLs of the parts from index `i` on: the address of an image
/// part where the CDN serves it, and what a text part names.
pub open spec fn part_cdn_urls(items: Seq<ContentItemModel>, i: int) -> Seq<Seq<char>>
    decreases items.len() - i,
{
    if i < 0 || i >= items.len() {
        Seq::empty()
    } else {
        (match items[i] {
            ContentItemModel::ImageUrl { url, .. } => if starts_with(url, cdn_prefix()) {
                seq![url]
            } else {
                Seq::empty()
            },
            ContentItemModel::Text { text, .. } => text_cdn_urls(text),
            _ => Seq::empty(),
        }) + part_cdn_urls(items, i + 1)
    }
}

/// The CDN URLs that a message names.
pub open spec fn message_cdn_urls(m: MessageModel) -> Seq<Seq<char>> {
    match m.content {
        Some(ContentModel::Multi(items)) => part_cdn_urls(items, 0),
        Some(ContentModel::Text(text)) => text_cdn_urls(text),
        None => Seq::empty(),
    }
}

/// The CDN URLs that a message names, in the order of its content.
pub fn extract_poe_cdn_urls_from_message(message: &Message) -> (r: Vec<String>)
    ensures
        r.deep_view() == message_cdn_urls(message.deep_view()),
{
    let mut urls: Vec<String> = Vec::new();
    assert(urls.deep_view() =~= Seq::<Seq<char>>::empty());
    match &message.content {
        Some(OpenAiContent::Multi(items)) => {
            let mut i: usize = 0;
            while i < items.len()
                invariant
                    i <= items.len(),
                    urls.deep_view() + part_cdn_urls(items.deep_view(), i as int) == part_cdn_urls(
                        items.deep_view(),
                        0,
                    ),
                decreases items.len() - i,
            {
                assert(items.deep_view()[i as int] == items@[i as int].deep_view());
                let ghost before = urls.deep_view();
                let ghost rest = part_cdn_urls(items.deep_view(), i + 1);
                match &items[i] {
                    OpenAiContentItem::ImageUrl { image_url, .. } => {
                        if is_poe_cdn_url(image_url.url.as_str()) {
                            urls.push(image_url.url.clone());
                            assert(urls.deep_view() =~= before.push(image_url.url@));
                            assert(before + (seq![image_url.url@] + rest) =~= urls.deep_view()
                                + rest);
                        } else {
                            assert(before + (Seq::<Seq<char>>::empty() + rest) =~= before + rest);
                        }
                    },
                    OpenAiContentItem::Text { text, .. } => {
                        extract_urls_from_markdown(text.as_str(), &mut urls);
                        assert(before + (text_cdn_urls(text@) + rest) =~= urls.deep_view() + rest);
                    },
                    _ => {
                        assert(before + (Seq::<Seq<char>>::empty() + rest) =~= before + rest);
                    },
                }
                i += 1;
            }
            assert(urls.deep_view() + Seq::<Seq<char>>::empty() =~= urls.deep_view());
        },
        Some(OpenAiContent::Text(text)) => {
            extract_urls_from_markdown(text.as_str(), &mut urls);
            assert(Seq::<Seq<char>>::empty() + text_cdn_urls(text@) =~= text_cdn_urls(text@));
        },
        None => {},
    }
    urls
}

// ---------------------------------------------------------------------
// Fingerprints

/// A hexadecimal digit, lower case.
pub open spec fn hex_digit(d: int) -> char {
    if d < 10 {
        crate::decimal::digit_char(d)
    } else if d == 10 {
        'a'
    } else if d == 11 {
        'b'
    } else if d == 12 {
        'c'
    } else if d == 13 {
        'd'
    } else if d == 14 {
        'e'
    } else {
        'f'
    }
}

/// The bytes in hexadecimal, two digits each.
pub open spec fn hex_text(bytes: Seq<u8>) -> Seq<char>
    decreases bytes.len(),
{
    if bytes.len() == 0 {
        Seq::empty()
    } else {
        hex_text(bytes.drop_last()).push(hex_digit(bytes.last() as int / 16)).push(
            hex_digit(bytes.last() as int % 16),
        )
    }
}

fn hex_digit_of(d: u8) -> (c: char)
    requires
        d < 16,
    ensures
        c == hex_digit(d as int),
{
    if d < 10 {
        crate::decimal::digit_of(d as u64)
    } else if d == 10 {
        'a'
    } else if d == 11 {
        'b'
    } else if d == 12 {
        'c'
    } else if d == 13 {
        'd'
    } else if d == 14 {
        'e'
    } else {
        'f'
    }
}

pub fn to_hex(bytes: &Vec<u8>) -> (r: String)
    ensures
        r@ == hex_text(bytes@),
{
    let mut out: Vec<char> = Vec::new();
    let mut i: usize = 0;
    assert(bytes@.take(0) =~= Seq::<u8>::empty());
    while i < bytes.len()
        invariant
            i <= bytes.len(),
            out@ == hex_text(bytes@.take(i as int)),
        decreases bytes.len() - i,
    {
        assert(bytes@.take(i + 1).drop_last() =~= bytes@.take(i as int));
        out.push(hex_digit_of(bytes[i] / 16));
        out.push(hex_digit_of(bytes[i] % 16));
        i += 1;
    }
    assert(bytes@.take(bytes.len() as int) =~= bytes@);
    string_of(&out)
}

/// The payload of a data URI: what stands after its first `;base64,`, up
/// to the next one; a text without the marker is its own payload.
pub open spec fn payload_of(data_url: Seq<char>) -> Seq<char> {
    let parts = split(data_url, crate::cache::base64_marker());
    if parts.len() >= 2 {
        parts[1]
    } else {
        data_url
    }
}

/// The sample of a payload that is hashed: its first kibibyte, and its
/// last kibibyte as far as that does not overlap the first.
pub open spec fn sample_of(bytes: Seq<u8>) -> Seq<u8> {
    let n = bytes.len() as int;
    if n > 2048 {
        bytes.subrange(0, 1024) + bytes.subrange(n - 1024, n)
    } else {
        bytes
    }
}

/// The fingerprint of a data URI: the SHA-256 digest of the sample of its
/// payload, in hexadecimal.
pub open spec fn fingerprint(data_url: Seq<char>) -> Seq<char> {
    hex_text(sha256_digest(sample_of(encode_utf8(payload_of(data_url)))))
}

fn payload_bytes(data_url: &str) -> (r: Vec<u8>)
    ensures
        r@ == encode_utf8(payload_of(data_url@)),
{
    let parts = vec_split(&chars_of(data_url), &chars_of(";base64,"));
    let payload = if parts.len() >= 2 {
        assert(vec_views(parts@)[1] == parts@[1]@);
        string_of(&parts[1])
    } else {
        copy_str(data_url)
    };
    vstd::slice::slice_to_vec(payload.as_str().as_bytes())
}

/// The sample of the payload bytes that is hashed.
pub fn sample_bytes(bytes: &Vec<u8>) -> (r: Vec<u8>)
    ensures
        r@ == sample_of(bytes@),
{
    let n = bytes.len();
    let mut out: Vec<u8> = Vec::new();
    if n > 2048 {
        let mut i: usize = 0;
        while i < 1024
            invariant
                i <= 1024,
                n == bytes.len(),
                n > 2048,
                out@ == bytes@.subrange(0, i as int),
            decreases 1024 - i,
        {
            out.push(bytes[i]);
            assert(bytes@.subrange(0, i + 1) =~= bytes@.subrange(0, i as int).push(bytes@[i as int]));
            i += 1;
        }
        let mut k: usize = n - 1024;
        while k < n
            invariant
                n - 1024 <= k <= n,
                n == bytes.len(),
                n > 2048,
                out@ == bytes@.subrange(0, 1024) + bytes@.subrange(n - 1024, k as int),
            decreases n - k,
        {
            out.push(bytes[k]);
            assert(bytes@.subrange(n - 1024, k + 1) =~= bytes@.subrange(n - 1024, k as int).push(
                bytes@[k as int],
            ));
            assert(out@ =~= bytes@.subrange(0, 1024) + bytes@.subrange(n - 1024, k + 1));
            k += 1;
        }
        out
    } else {
        let mut i: usize = 0;
        while i < n
            invariant
                i <= n,
                n == bytes.len(),
                out@ == bytes@.subrange(0, i as int),
            decreases n - i,
        {
            out.push(bytes[i]);
            assert(bytes@.subrange(0, i + 1) =~= bytes@.subrange(0, i as int).push(bytes@[i as int]));
            i += 1;
        }
        assert(bytes@.subrange(0, n as int) =~= bytes@);
        out
    }
}

/// The fingerprint under which the upload of a data URI is cached.
pub fn hash_base64_content(base64_str: &str) -> (r: String)
    ensures
        r@ == fingerprint(base64_str@),
{
    let bytes = payload_bytes(base64_str);
    let sample = sample_bytes(&bytes);
    to_hex(&sha256(sample.as_slice()))
}

// ---------------------------------------------------------------------
// Data URIs

/// Why a data URI is refused.
#[derive(Debug, Clone, Copy, PartialEq, Eq, Structural)]
pub enum DataUrlError {
    /// The text does not begin with `data:`.
    NotDataUrl,
    /// The text does not hold `;base64,` exactly once.
    MissingSeparator,
    /// The payload is no base64.
    InvalidBase64,
}

/// The file extension for a media type.
pub open spec fn extension_of(mime: Seq<char>) -> Seq<char> {
    if mime == "image/jpeg"@ || mime == "image/jpg"@ {
        "jpeg"@
    } else if mime == "image/png"@ {
        "png"@
    } else if mime == "image/gif"@ {
        "gif"@
    } else if mime == "image/webp"@ {
        "webp"@
    } else if mime == "image/svg+xml"@ {
        "svg"@
    } else if mime == "image/bmp"@ {
        "bmp"@
    } else if mime == "image/tiff"@ {
        "tiff"@
    } else if mime == "application/pdf"@ {
        "pdf"@
    } else if mime == "text/plain"@ {
        "txt"@
    } else if mime == "text/csv"@ {
        "csv"@
    } else if mime == "application/json"@ {
        "json"@
    } else if mime == "application/xml"@ || mime == "text/xml"@ {
        "xml"@
    } else if mime == "application/zip"@ {
        "zip"@
    } else if mime == "application/x-tar"@ {
        "tar"@
    } else if mime == "application/x-gzip"@ {
        "gz"@
    } else if mime == "audio/mpeg"@ {
        "mp3"@
    } else if mime == "audio/wav"@ {
        "wav"@
    } else if mime == "audio/ogg"@ {
        "ogg"@
    } else if mime == "video/mp4"@ {
        "mp4"@
    } else if mime == "video/mpeg"@ {
        "mpeg"@
    } else if mime == "video/quicktime"@ {
        "mov"@
    } else {
        "bin"@
    }
}

/// The file extension for a media type; `bin` for one that is not known.
pub fn mime_type_to_extension(mime_type: &str) -> (r: String)
    ensures
        r@ == extension_of(mime_type@),
{
    if str_eq(mime_type, "image/jpeg") || str_eq(mime_type, "image/jpg") {
        copy_str("jpeg")
    } else if str_eq(mime_type, "image/png") {
        copy_str("png")
    } else if str_eq(mime_type, "image/gif") {
        copy_str("gif")
    } else if str_eq(mime_type, "image/webp") {
        copy_str("webp")
    } else if str_eq(mime_type, "image/svg+xml") {
        copy_str("svg")
    } else if str_eq(mime_type, "image/bmp") {
        copy_str("bmp")
    } else if str_eq(mime_type, "image/tiff") {
        copy_str("tiff")
    } else if str_eq(mime_type, "application/pdf") {
        copy_str("pdf")
    } else if str_eq(mime_type, "text/plain") {
        copy_str("txt")
    } else if str_eq(mime_type, "text/csv") {
        copy_str("csv")
    } else if str_eq(mime_type, "application/json") {
        copy_str("json")
    } else if str_eq(mime_type, "application/xml") || str_eq(mime_type, "text/xml") {
        copy_str("xml")
    } else if str_eq(mime_type, "application/zip") {
        copy_str("zip")
    } else if str_eq(mime_type, "application/x-tar") {
        copy_str("tar")
    } else if str_eq(mime_type, "application/x-gzip") {
        copy_str("gz")
    } else if str_eq(mime_type, "audio/mpeg") {
        copy_str("mp3")
    } else if str_eq(mime_type, "audio/wav") {
        copy_str("wav")
    } else if str_eq(mime_type, "audio/ogg") {
        copy_str("ogg")
    } else if str_eq(mime_type, "video/mp4") {
        copy_str("mp4")
    } else if str_eq(mime_type, "video/mpeg") {
        copy_str("mpeg")
    } else if str_eq(mime_type, "video/quicktime") {
        copy_str("mov")
    } else {
        copy_str("bin")
    }
}

/// What a data URI holds.
#[derive(Debug)]
pub struct DataUrlFile {
    pub mime_type: String,
    pub extension: String,
    pub bytes: Vec<u8>,
}

pub struct DataUrlFileModel {
    pub mime_type: Seq<char>,
    pub extension: Seq<char>,
    pub bytes: Seq<u8>,
}

impl DeepView for DataUrlFile {
    type V = DataUrlFileModel;

    open spec fn deep_view(&self) -> DataUrlFileModel {
        DataUrlFileModel {
            mime_type: self.mime_type@,
            extension: self.extension@,
            bytes: self.bytes@,
        }
    }
}

/// `head` without one `data:` at its beginning.
pub open spec fn media_type_of(head: Seq<char>) -> Seq<char> {
    if starts_with(head, "data:"@) {
        head.subrange("data:"@.len() as int, head.len() as int)
    } else {
        head
    }
}

/// What a data URI holds, given what its payload decodes to: the text
/// must begin with `data:` and hold `;base64,` exactly once; the media
/// type stands between the two.
pub open spec fn data_url_file(data_url: Seq<char>, decoded: Option<Seq<u8>>) -> Result<
    DataUrlFileModel,
    DataUrlError,
> {
    let parts = split(data_url, crate::cache::base64_marker());
    if !starts_with(data_url, "data:"@) {
        Err(DataUrlError::NotDataUrl)
    } else if parts.len() != 2 {
        Err(DataUrlError::MissingSeparator)
    } else {
        match decoded {
            Some(bytes) => Ok(
                DataUrlFileModel {
                    mime_type: media_type_of(parts[0]),
                    extension: extension_of(media_type_of(parts[0])),
                    bytes,
                },
            ),
            None => Err(DataUrlError::InvalidBase64),
        }
    }
}

/// The file of a data URI.
pub open spec fn decoded_data_url(data_url: Seq<char>) -> Result<DataUrlFileModel, DataUrlError> {
    data_url_file(data_url, base64_decoded(payload_of(data_url)))
}

fn media_type(head: &Vec<char>) -> (r: String)
    ensures
        r@ == media_type_of(head@),
{
    let prefix = chars_of("data:");
    if vec_starts_with(head, &prefix) {
        string_of(&subvec(head, prefix.len(), head.len()))
    } else {
        string_of(head)
    }
}

/// Reads a data URI: its media type, the file extension that goes with
/// it, and the bytes of its payload.
pub fn handle_data_url(data_url: &str) -> (r: Result<DataUrlFile, DataUrlError>)
    ensures
        match r {
            Ok(file) => decoded_data_url(data_url@) == Ok::<DataUrlFileModel, DataUrlError>(
                file.deep_view(),
            ),
            Err(e) => decoded_data_url(data_url@) == Err::<DataUrlFileModel, DataUrlError>(e),
        },
{
    let text = chars_of(data_url);
    if !vec_starts_with(&text, &chars_of("data:")) {
        return Err(DataUrlError::NotDataUrl);
    }
    let parts = vec_split(&text, &chars_of(";base64,"));
    if parts.len() != 2 {
        return Err(DataUrlError::MissingSeparator);
    }
    assert(vec_views(parts@)[0] == parts@[0]@);
    assert(vec_views(parts@)[1] == parts@[1]@);
    let payload = string_of(&parts[1]);
    match base64_decode(payload.as_str()) {
        Some(bytes) => {
            let mime_type = media_type(&parts[0]);
            let extension = mime_type_to_extension(mime_type.as_str());
            Ok(DataUrlFile { mime_type, extension, bytes })
        },
        None => Err(DataUrlError::InvalidBase64),
    }
}

} // verus!
