//! The plain text of a message's content.

use crate::chat::{
    ContentItemModel, ContentModel, OpenAiContent, OpenAiContentItem, ToolResultContent,
    ToolResultContentModel,
};
use crate::json::{json_quote, json_string_literal};
use crate::split::{join, vec_join};
use crate::text::{chars_of, replace_all, string_of, subvec, vec_replace, vec_views};
use crate::thinking::newline;
use vstd::prelude::*;

verus! {

/// First index at or after `i` that does not hold `c`, or the length.
pub open spec fn skip_char(s: Seq<char>, c: char, i: int) -> int
    decreases s.len() - i,
{
    if i < 0 || i >= s.len() {
        s.len() as int
    } else if s[i] == c {
        skip_char(s, c, i + 1)
    } else {
        i
    }
}

/// End of the text before index `j` once trailing `c` are dropped.
pub open spec fn skip_char_back(s: Seq<char>, c: char, j: int) -> int
    decreases j,
{
    if j <= 0 || j > s.len() {
        0
    } else if s[j - 1] == c {
        skip_char_back(s, c, j - 1)
    } else {
        j
    }
}

/// `s` without the `c` at its beginning and at its end.
pub open spec fn trim_char(s: Seq<char>, c: char) -> Seq<char> {
    let a = skip_char(s, c, 0);
    let b = skip_char_back(s, c, s.len() as int);
    if a >= b {
        Seq::empty()
    } else {
        s.subrange(a, b)
    }
}

pub fn vec_trim_char(s: &Vec<char>, c: char) -> (r: Vec<char>)
    ensures
        r@ == trim_char(s@, c),
{
    let mut a: usize = 0;
    while a < s.len() && s[a] == c
        invariant
            a <= s.len(),
            skip_char(s@, c, 0) == skip_char(s@, c, a as int),
        decreases s.len() - a,
    {
        a += 1;
    }
    let mut b: usize = s.len();
    while b > 0 && s[b - 1] == c
        invariant
            b <= s.len(),
            skip_char_back(s@, c, s.len() as int) == skip_char_back(s@, c, b as int),
        decreases b,
    {
        b -= 1;
    }
    if a >= b {
        let r: Vec<char> = Vec::new();
        assert(r@ =~= Seq::<char>::empty());
        r
    } else {
        subvec(s, a, b)
    }
}

/// A JSON string literal without the quotes around it, and with its
/// escaped quotes plain again. Other escapes stay as they are.
pub open spec fn unquoted(literal: Seq<char>) -> Seq<char> {
    replace_all(trim_char(literal, '"'), seq!['\\', '"'], seq!['"'])
}

/// The text of a text part: its JSON string literal, unquoted; the text
/// itself where there is no literal.
pub open spec fn escaped_text(text: Seq<char>) -> Seq<char> {
    match json_string_literal(text) {
        Some(literal) => unquoted(literal),
        None => text,
    }
}

/// What a part adds to the plain text of its message.
pub open spec fn item_text(item: ContentItemModel) -> Option<Seq<char>> {
    match item {
        ContentItemModel::Text { text, .. } => Some(escaped_text(text)),
        ContentItemModel::ToolResult { content, .. } => match content {
            ToolResultContentModel::Text(t) => Some(t),
            ToolResultContentModel::Json(j) => Some(j),
            ToolResultContentModel::Null => None,
        },
        ContentItemModel::Other { text, .. } => text,
        _ => None,
    }
}

/// The texts of the parts from index `i` on.
pub open spec fn item_texts(items: Seq<ContentItemModel>, i: int) -> Seq<Seq<char>>
    decreases items.len() - i,
{
    if i < 0 || i >= items.len() {
        Seq::empty()
    } else {
        match item_text(items[i]) {
            Some(t) => seq![t] + item_texts(items, i + 1),
            None => item_texts(items, i + 1),
        }
    }
}

/// The plain text of a content: the text itself, or the texts of the
/// parts, one per line.
pub open spec fn content_text(content: Option<ContentModel>) -> Seq<char> {
    match content {
        Some(ContentModel::Text(t)) => t,
        Some(ContentModel::Multi(items)) => join(item_texts(items, 0), newline()),
        None => Seq::empty(),
    }
}

/// The text of a text part, from the literal that the JSON library made
/// of it.
pub fn unquote_literal(text: &str, literal: Option<String>) -> (r: Vec<char>)
    ensures
        r@ == match literal.deep_view() {
            Some(l) => unquoted(l),
            None => text@,
        },
{
    match literal {
        Some(l) => {
            let trimmed = vec_trim_char(&chars_of(l.as_str()), '"');
            let mut from: Vec<char> = Vec::new();
            from.push('\\');
            from.push('"');
            let mut to: Vec<char> = Vec::new();
            to.push('"');
            assert(from@ =~= seq!['\\', '"']);
            assert(to@ =~= seq!['"']);
            vec_replace(&trimmed, &from, &to)
        },
        None => chars_of(text),
    }
}

fn item_text_exec(item: &OpenAiContentItem) -> (r: Option<Vec<char>>)
    ensures
        crate::thinking::opt_view(r) == item_text(item.deep_view()),
{
    match item {
        OpenAiContentItem::Text { text, .. } => Some(
            unquote_literal(text.as_str(), json_quote(text.as_str())),
        ),
        OpenAiContentItem::ToolResult { content, .. } => match content {
            ToolResultContent::Text(t) => Some(chars_of(t.as_str())),
            ToolResultContent::Json(j) => Some(chars_of(j.as_str())),
            ToolResultContent::Null => None,
        },
        OpenAiContentItem::Other { text, .. } => match text {
            Some(t) => Some(chars_of(t.as_str())),
            None => None,
        },
        _ => None,
    }
}

/// The plain text of a message's content.
pub fn get_text_from_openai_content(content: &Option<OpenAiContent>) -> (r: String)
    ensures
        r@ == content_text(content.deep_view()),
{
    match content {
        Some(OpenAiContent::Text(t)) => t.clone(),
        Some(OpenAiContent::Multi(items)) => {
            let mut parts: Vec<Vec<char>> = Vec::new();
            assert(vec_views(parts@) =~= Seq::<Seq<char>>::empty());
            let mut i: usize = 0;
            while i < items.len()
                invariant
                    i <= items.len(),
                    item_texts(items.deep_view(), 0) == vec_views(parts@) + item_texts(
                        items.deep_view(),
                        i as int,
                    ),
                decreases items.len() - i,
            {
                assert(items.deep_view()[i as int] == items@[i as int].deep_view());
                let ghost before = vec_views(parts@);
                match item_text_exec(&items[i]) {
                    Some(t) => {
                        parts.push(t);
                        assert(vec_views(parts@) =~= before.push(t@));
                        assert(before + (seq![t@] + item_texts(items.deep_view(), i + 1))
                            =~= vec_views(parts@) + item_texts(items.deep_view(), i + 1));
                    },
                    None => {},
                }
                i += 1;
            }
            assert(vec_views(parts@) + Seq::<Seq<char>>::empty() =~= vec_views(parts@));
            let mut nl: Vec<char> = Vec::new();
            nl.push('\n');
            assert(nl@ =~= newline());
            string_of(&vec_join(&parts, &nl))
        },
        None => String::new(),
    }
}

} // verus!
