use poe2openai::context::EventContext;
use poe2openai::thinking::ThinkingProcessor;

// A model of the thinking parser written with the string methods of the
// standard library, to hold the parser against.
#[derive(Default, Clone, Debug, PartialEq)]
struct Model {
    content: String,
    pending_text: String,
    reasoning_content: String,
    current_reasoning_line: String,
    thinking_started: bool,
    in_thinking_mode: bool,
}

fn detect(text: &str) -> Option<usize> {
    text.find("*Thinking...*").or_else(|| text.find("Thinking..."))
}

fn thinking_pass(m: &mut Model) -> (Option<String>, String, bool) {
    let mut reasoning_chunks: Vec<String> = Vec::new();
    let mut thinking_ended = false;
    let pending = m.pending_text.clone();
    let lines: Vec<&str> = pending.lines().collect();
    let mut processed_lines = 0;
    for (i, line) in lines.iter().enumerate() {
        let trimmed = line.trim();
        if trimmed.starts_with("> ") || trimmed == ">" {
            let thinking_content =
                if trimmed == ">" { "" } else { trimmed.strip_prefix("> ").unwrap_or(trimmed) };
            if i == lines.len() - 1 && !pending.ends_with('\n') {
                m.current_reasoning_line = thinking_content.to_string();
                break;
            } else {
                let mut full_line = thinking_content.to_string();
                let mut j = i + 1;
                while j < lines.len() {
                    let next_line = lines[j].trim();
                    if !next_line.starts_with("> ") && !next_line.is_empty() {
                        if let Some(current_pos) = pending.find(line) {
                            if let Some(relative) = pending[current_pos..].find(next_line) {
                                let next_pos = current_pos + relative;
                                let start_pos = current_pos + line.len();
                                if start_pos <= next_pos {
                                    if pending[start_pos..next_pos].contains('\n') {
                                        break;
                                    } else {
                                        full_line.push_str(next_line);
                                        j += 1;
                                    }
                                } else {
                                    break;
                                }
                            } else {
                                break;
                            }
                        } else {
                            break;
                        }
                    } else if next_line.is_empty() {
                        j += 1;
                    } else {
                        break;
                    }
                }
                reasoning_chunks.push(full_line);
                processed_lines = j;
            }
        } else if trimmed.is_empty() {
            processed_lines = i + 1;
        } else {
            thinking_ended = true;
            processed_lines = i;
            break;
        }
    }
    let reasoning = if !reasoning_chunks.is_empty() {
        let combined = reasoning_chunks.join("\n");
        m.reasoning_content.push_str(&combined);
        if !m.reasoning_content.ends_with('\n') {
            m.reasoning_content.push('\n');
        }
        Some(combined)
    } else {
        None
    };
    let remaining = if processed_lines < lines.len() {
        lines[processed_lines..].join("\n")
    } else if !m.current_reasoning_line.is_empty() && !thinking_ended {
        format!("> {}", m.current_reasoning_line)
    } else {
        String::new()
    };
    (reasoning, remaining, thinking_ended)
}

fn feed(m: &mut Model, new_text: &str) -> (Option<String>, Option<String>) {
    m.pending_text.push_str(new_text);
    let mut reasoning_output = None;
    let mut content_output: Option<String> = None;
    if !m.thinking_started {
        if let Some(pos) = detect(&m.pending_text) {
            m.thinking_started = true;
            m.in_thinking_mode = true;
            let pending = m.pending_text.clone();
            let (before, after) = pending.split_at(pos);
            if !before.trim().is_empty() {
                m.content.push_str(before);
                content_output = Some(before.to_string());
            }
            let after_marker = if after.starts_with("*Thinking...*") {
                after.strip_prefix("*Thinking...*").unwrap_or("")
            } else if after.starts_with("Thinking...") {
                after.strip_prefix("Thinking...").unwrap_or("")
            } else {
                after
            };
            m.pending_text = after_marker.to_string();
        } else {
            if !m.pending_text.trim().is_empty() {
                m.content.push_str(&m.pending_text.clone());
                content_output = Some(m.pending_text.clone());
                m.pending_text.clear();
            }
            return (None, content_output);
        }
    }
    if m.thinking_started && m.in_thinking_mode {
        let (reasoning, remaining, ended) = thinking_pass(m);
        if reasoning.is_some() {
            reasoning_output = reasoning;
        }
        m.pending_text = remaining;
        if ended {
            m.in_thinking_mode = false;
            if !m.pending_text.trim().is_empty() {
                m.content.push_str(&m.pending_text.clone());
                content_output = Some(match content_output {
                    Some(existing) => format!("{}{}", existing, m.pending_text),
                    None => m.pending_text.clone(),
                });
                m.pending_text.clear();
            }
        }
    } else if m.thinking_started && !m.in_thinking_mode && !m.pending_text.trim().is_empty() {
        m.content.push_str(&m.pending_text.clone());
        content_output = Some(m.pending_text.clone());
        m.pending_text.clear();
    }
    (reasoning_output, content_output)
}

fn state_of(ctx: &EventContext) -> Model {
    Model {
        content: ctx.content.clone(),
        pending_text: ctx.pending_text.clone(),
        reasoning_content: ctx.reasoning_content.clone(),
        current_reasoning_line: ctx.current_reasoning_line.clone(),
        thinking_started: ctx.thinking_started,
        in_thinking_mode: ctx.in_thinking_mode,
    }
}

fn compare(pieces: &[&str]) {
    let mut ctx = EventContext::new();
    let mut model = Model::default();
    for piece in pieces {
        let got = ThinkingProcessor::process_text_chunk(&mut ctx, piece);
        let want = feed(&mut model, piece);
        assert_eq!(got, want, "pieces: {:?}, at {:?}", pieces, piece);
        assert_eq!(state_of(&ctx), model, "pieces: {:?}, at {:?}", pieces, piece);
    }
}

const SAMPLES: [&str; 22] = [
    "",
    "plain text only",
    "  \n \t",
    "Prefix *Thinking...*\n> step1\n> step2\nAnswer.",
    "A*Thinking...*> foo\n> bar\nZ",
    "Thinking...\n> one\n>\n> two\n\nfinal answer\nmore",
    "*Thinking...*\r\n> a\r\n> b\r\nend\r\n",
    "x Thinking... y",
    "*Thinking...",
    "before Thinking... then *Thinking...* \n> t\nafter",
    "Thinking...\n> a b\n> a\nb\n",
    "Thinking...\n> a\n> a\nb\n> c\n",
    "Thinking...\n>a\n> b\n",
    "Thinking...\n  > indented \n>\t\n> tab\nrest",
    "Thinking...\n> partial",
    "Thinking...\n> x\n> y",
    "Thinking...\n\n\n",
    "Thinking...\n> é ü \u{3000}\n> 日本語\nconclusión ñ",
    "> not thinking yet\n*Thinking...*\n> now\n",
    "Thinking...\n> one\ntwo\n> three\n",
    "Thinking...\n> a\nA\n> a\nA\n",
    "Thinking...\n> q\n\n\n> r\n \nS",
];

#[test]
fn parser_agrees_with_the_model_on_whole_texts() {
    for sample in SAMPLES {
        compare(&[sample]);
        compare(&[sample, ""]);
        compare(&[sample, "\n", "tail"]);
    }
}

#[test]
fn parser_agrees_with_the_model_on_texts_in_two_pieces() {
    for sample in SAMPLES {
        for (cut, _) in sample.char_indices() {
            compare(&[&sample[..cut], &sample[cut..]]);
        }
    }
}

#[test]
fn parser_agrees_with_the_model_on_texts_in_three_pieces() {
    for sample in SAMPLES.iter().take(12) {
        let cuts: Vec<usize> = sample.char_indices().map(|(i, _)| i).collect();
        for (n, a) in cuts.iter().enumerate() {
            for b in cuts.iter().skip(n).step_by(3) {
                compare(&[&sample[..*a], &sample[*a..*b], &sample[*b..]]);
            }
        }
    }
}

#[test]
fn parser_agrees_with_the_model_character_by_character() {
    for sample in SAMPLES {
        let pieces: Vec<String> = sample.chars().map(|c| c.to_string()).collect();
        let refs: Vec<&str> = pieces.iter().map(|s| s.as_str()).collect();
        compare(&refs);
    }
}
