use poe2openai::content::unquote_literal;
use poe2openai::events::resolve_file_refs;
use poe2openai::media::push_cdn_urls;
use poe2openai::record::parse_record;
use poe2openai::tools::tool_call_id_from;
use poe2openai::upstream::FileData;

// Each function below is held against a model written with the string
// methods of the standard library.

fn record_model(value: &str) -> Option<(Option<u64>, String, Option<usize>)> {
    let parts: Vec<&str> = value.split(':').collect();
    if parts.len() >= 3 {
        Some((
            parts[0].parse::<u64>().ok(),
            parts[1..parts.len() - 1].join(":"),
            parts[parts.len() - 1].parse::<usize>().ok(),
        ))
    } else {
        None
    }
}

#[test]
fn record_reader_agrees_with_the_model() {
    let samples = [
        "", ":", "::", ":::", "1:u:2", "1::2", "+1:u:+2", "1:https://h:80/p?a=b:c:33",
        "x:u:1", "1:u:x", "1:u:", ":u:1", "18446744073709551615:u:18446744073709551615",
        "18446744073709551616:u:1", "1:u:18446744073709551616", "01:é:002", "1:u", "no colons",
        " 1:u:2", "1:u:2 ", "1:a:b:c:d:e:9",
    ];
    for sample in samples {
        let chars: Vec<char> = sample.chars().collect();
        let got = parse_record(&chars)
            .map(|r| (r.expires, r.url.iter().collect::<String>(), r.size));
        assert_eq!(got, record_model(sample), "{:?}", sample);
    }
}

fn quoted_model(content: &str) -> Option<String> {
    if let Some(start) = content.find("tool_call_id") {
        if let Some(id_start) = content[start..].find('"') {
            if let Some(id_end) = content[start + id_start + 1..].find('"') {
                return Some(
                    content[start + id_start + 1..start + id_start + 1 + id_end].to_string(),
                );
            }
        }
    }
    None
}

#[test]
fn quoted_id_agrees_with_the_model() {
    let samples = [
        "", "tool_call_id", "tool_call_id\"", "tool_call_id\"\"", "tool_call_id: \"abc\"",
        "\"x\" then tool_call_id = \"é ü\" and \"more\"", "{\"tool_call_id\": 7, \"b\": \"c\"}",
        "tool_call_idtool_call_id\"a\"b\"", "TOOL_CALL_ID \"no\"", "日本 tool_call_id \"語\"",
    ];
    for sample in samples {
        assert_eq!(tool_call_id_from(sample, None), quoted_model(sample), "{:?}", sample);
        assert_eq!(tool_call_id_from(sample, Some("m".to_string())).as_deref(), Some("m"));
    }
}

fn unquote_model(literal: &str) -> String {
    literal.trim_matches('"').to_string().replace("\\\"", "\"")
}

#[test]
fn unquoting_agrees_with_the_model() {
    let samples = [
        "\"\"", "\"a\"", "\"say \\\"hi\\\"\"", "\"\\\"\"", "\"\\\\\\\"x\"", "\"a\\nb\"",
        "\"\"\"", "no quotes", "\"\"x\"\"", "",
    ];
    for sample in samples {
        let got: String = unquote_literal("t", Some(sample.to_string())).iter().collect();
        assert_eq!(got, unquote_model(sample), "{:?}", sample);
    }
    let kept: String = unquote_literal("text", None).iter().collect();
    assert_eq!(kept, "text");
    for text in ["plain", "say \"hi\"", "a\nb\tc", "back\\slash", "\"", ""] {
        let literal = serde_json::to_string(text).expect("literal");
        let got: String = unquote_literal(text, Some(literal.clone())).iter().collect();
        assert_eq!(got, unquote_model(&literal));
    }
}

fn resolve_model(text: &str, refs: &[(&str, &str)]) -> (String, bool) {
    let mut processed = text.to_string();
    let mut met = false;
    for (inline_ref, url) in refs {
        let marker = format!("[{}]", inline_ref);
        if processed.contains(&marker) {
            processed = processed.replace(&marker, &format!("({})", url));
            met = true;
        }
    }
    (processed, met)
}

#[test]
fn placeholder_resolution_agrees_with_the_model() {
    let tables: [&[(&str, &str)]; 4] = [
        &[],
        &[("a", "https://cdn/a")],
        &[("a", "https://cdn/a"), ("b", "https://cdn/[a]"), ("", "empty")],
        &[("x]y", "u"), ("[", "v"), ("é", "ü")],
    ];
    let texts = [
        "", "no markers", "[a]", "[a][a] [b]", "[[a]]", "[a", "a]", "[b] then [a]", "[]",
        "[x]y] [[] [é]", "(u)[a](u)",
    ];
    for table in tables {
        let refs: Vec<FileData> = table
            .iter()
            .map(|(r, u)| FileData {
                url: u.to_string(),
                name: String::new(),
                content_type: String::new(),
                inline_ref: r.to_string(),
            })
            .collect();
        for text in texts {
            assert_eq!(resolve_file_refs(text, &refs), resolve_model(text, table), "{:?}", text);
        }
    }
}

fn words_model(text: &str) -> Vec<String> {
    text.split_whitespace()
        .filter(|w| w.starts_with("https://pfst.cf2.poecdn.net"))
        .map(|w| w.to_string())
        .collect()
}

#[test]
fn words_agree_with_the_model() {
    let samples = [
        "", "   ", "https://pfst.cf2.poecdn.net/a", " https://pfst.cf2.poecdn.net/a\t\nx https://pfst.cf2.poecdn.net/b  ",
        "xhttps://pfst.cf2.poecdn.net/a", "https://pfst.cf2.poecdn.net/a\u{3000}https://pfst.cf2.poecdn.net/b",
        "a\u{a0}https://pfst.cf2.poecdn.net/c\u{2028}d",
    ];
    for sample in samples {
        let mut got = Vec::new();
        push_cdn_urls(sample, &None, &mut got);
        assert_eq!(got, words_model(sample), "{:?}", sample);
    }
}
